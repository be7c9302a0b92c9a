//! What a machine is started with.
use crate::bytes::{push_bytes, push_u64_le};
use crate::devices::fw_cfg::acpi_loader::{create_acpi_loader, AcpiFiles, AcpiTable};
use crate::devices::fw_cfg::boot::{
    initrd_address, load_setup, make_e820, KernelFile, SetupUpdate, FW_CFG_CMDLINE_LOAD_ADDR,
    FW_CFG_KERNEL_LOAD_ADDR, FW_CFG_SETUP_LOAD_ADDR,
};
use crate::devices::fw_cfg::content::{ContentView, FwCfgContent, FwCfgError, FwCfgItem, ItemView};
use crate::devices::fw_cfg::device::FwCfg;
use crate::devices::fw_cfg::smbios::build_qemu_compat_smbios;
use crate::devices::fw_cfg::state::{
    FwCfgState, FW_CFG_CMDLINE_ADDR, FW_CFG_CMDLINE_DATA, FW_CFG_CMDLINE_SIZE, FW_CFG_INITRD_ADDR,
    FW_CFG_INITRD_DATA, FW_CFG_INITRD_SIZE, FW_CFG_KERNEL_ADDR, FW_CFG_KERNEL_DATA,
    FW_CFG_KERNEL_SIZE, FW_CFG_RAM_SIZE, FW_CFG_SETUP_ADDR, FW_CFG_SETUP_DATA, FW_CFG_SETUP_SIZE,
    MAX_FILES,
};
use vstd::prelude::*;

verus! {

broadcast use {
    crate::devices::fw_cfg::state::adding_stops,
    crate::devices::fw_cfg::state::adding_missing_stops,
};

impl FwCfg {
    /// Adds the memory map.
    pub fn add_e820(&mut self, mem_size: usize) -> (r: Result<(), FwCfgError>)
        requires
            old(self).wf(),
            old(self).items().len() < MAX_FILES,
        ensures
            final(self).wf(),
            final(self).state(crate::devices::fw_cfg::device::error_of(r)) == old(self).state(None).add_e820(mem_size),
            final(self).same_rest(old(self)),
            final(self).items().len() <= old(self).items().len() + 1,
    {
        self.add_item(FwCfgItem::of_bytes("etc/e820", make_e820(mem_size)))
    }

    /// Adds the files that firmware expects on the platform. `kvmvapic` is the
    /// number and length of an option ROM, if it could be opened.
    pub fn add_qemu_compat_files(&mut self, kvmvapic: Option<(u64, u64)>) -> (r: Result<
        (),
        FwCfgError,
    >)
        requires
            old(self).wf(),
            old(self).items().len() + 10 <= MAX_FILES,
            file_ok(kvmvapic),
        ensures
            final(self).wf(),
            final(self).state(crate::devices::fw_cfg::device::error_of(r)) == old(self).state(None).add_compat(kvmvapic),
            final(self).same_rest(old(self)),
            final(self).items().len() <= old(self).items().len() + 10,
    {
        let none: Vec<u8> = Vec::new();
        assert(none@ =~= Seq::empty());
        match self.add_item_if_missing(FwCfgItem::of_bytes("bios-geometry", none)) {
            Ok(()) => {},
            Err(e) => {
                return Err(e);
            },
        }
        let wait: Vec<u8> = vec![0xff, 0xff, 0xff, 0xff];
        assert(wait@ =~= seq![0xffu8, 0xff, 0xff, 0xff]);
        match self.add_item_if_missing(FwCfgItem::of_bytes("etc/boot-fail-wait", wait)) {
            Ok(()) => {},
            Err(e) => {
                return Err(e);
            },
        }
        let (smbios_anchor, smbios_tables): (Vec<u8>, Vec<u8>) = build_qemu_compat_smbios();
        match self.add_item_if_missing(
            FwCfgItem::of_bytes("etc/smbios/smbios-anchor", smbios_anchor),
        ) {
            Ok(()) => {},
            Err(e) => {
                return Err(e);
            },
        }
        match self.add_item_if_missing(
            FwCfgItem::of_bytes("etc/smbios/smbios-tables", smbios_tables),
        ) {
            Ok(()) => {},
            Err(e) => {
                return Err(e);
            },
        }
        let ok: Vec<u8> = vec![1];
        assert(ok@ =~= seq![1u8]);
        match self.add_item_if_missing(FwCfgItem::of_bytes("etc/smi/features-ok", ok)) {
            Ok(()) => {},
            Err(e) => {
                return Err(e);
            },
        }
        let mut requested: Vec<u8> = Vec::new();
        push_u64_le(&mut requested, 0);
        assert(requested@ =~= crate::bytes::u64_le(0));
        match self.add_item_if_missing(
            FwCfgItem::of_bytes("etc/smi/requested-features", requested),
        ) {
            Ok(()) => {},
            Err(e) => {
                return Err(e);
            },
        }
        let mut supported: Vec<u8> = Vec::new();
        push_u64_le(&mut supported, 7);
        assert(supported@ =~= crate::bytes::u64_le(7));
        match self.add_item_if_missing(
            FwCfgItem::of_bytes("etc/smi/supported-features", supported),
        ) {
            Ok(()) => {},
            Err(e) => {
                return Err(e);
            },
        }
        let states: Vec<u8> = vec![128, 0, 0, 129, 128, 128];
        assert(states@ =~= seq![128u8, 0, 0, 129, 128, 128]);
        match self.add_item_if_missing(FwCfgItem::of_bytes("etc/system-states", states)) {
            Ok(()) => {},
            Err(e) => {
                return Err(e);
            },
        }
        let none: Vec<u8> = Vec::new();
        assert(none@ =~= Seq::empty());
        match self.add_item_if_missing(FwCfgItem::of_bytes("etc/tpm/log", none)) {
            Ok(()) => {},
            Err(e) => {
                return Err(e);
            },
        }
        match kvmvapic {
            Some((file, len)) => self.add_item_if_missing(
                FwCfgItem::of_file("genroms/kvmvapic.bin", file, len),
            ),
            None => {
                let none: Vec<u8> = Vec::new();
                assert(none@ =~= Seq::empty());
                self.add_item_if_missing(FwCfgItem::of_bytes("genroms/kvmvapic.bin", none))
            },
        }
    }

    /// Adds the option ROM that boots a kernel, if it is enabled and could be
    /// opened.
    fn add_linuxboot_option_rom(&mut self, rom: Option<(u64, u64)>) -> (r: Result<(), FwCfgError>)
        requires
            old(self).wf(),
            old(self).items().len() + 2 <= MAX_FILES,
            file_ok(rom),
        ensures
            final(self).wf(),
            final(self).state(crate::devices::fw_cfg::device::error_of(r)) == old(self).state(None).add_linuxboot(
                old(self).rom_used(rom),
            ),
            final(self).same_rest(old(self)),
            final(self).items().len() <= old(self).items().len() + 2,
    {
        if !self.linuxboot_option_rom_enabled() {
            return Ok(());
        }
        match rom {
            Some((file, len)) => {
                match self.add_item(FwCfgItem::of_file("genroms/linuxboot_dma.bin", file, len)) {
                    Ok(()) => {},
                    Err(e) => {
                        return Err(e);
                    },
                }
                let mut path: Vec<u8> = Vec::new();
                push_bytes(&mut path, "/rom@genroms/linuxboot_dma.bin".as_bytes());
                path.push(0);
                assert(path@ =~= vstd::utf8::encode_utf8("/rom@genroms/linuxboot_dma.bin"@).push(
                    0,
                ));
                self.add_item(FwCfgItem::of_bytes("bootorder", path))
            },
            None => Ok(()),
        }
    }

    /// The option ROM, where it is enabled.
    pub open spec fn rom_used(&self, rom: Option<(u64, u64)>) -> Option<(u64, u64)> {
        if self.options().0 {
            rom
        } else {
            None
        }
    }

    /// Adds a kernel. `rom` is the number and length of the option ROM that
    /// boots it, if it could be opened.
    pub fn add_kernel_data(&mut self, kernel: &KernelFile, rom: Option<(u64, u64)>) -> (r: Result<
        (),
        FwCfgError,
    >)
        requires
            old(self).wf(),
            old(self).items().len() + 3 <= MAX_FILES,
            kernel.wf(),
            file_ok(rom),
        ensures
            final(self).wf(),
            final(self).state(crate::devices::fw_cfg::device::error_of(r)) == old(self).state(None).add_kernel(
                *kernel,
                old(self).options().1,
                old(self).rom_used(rom),
            ),
            final(self).same_rest(old(self)),
            final(self).items().len() <= old(self).items().len() + 3,
    {
        let (buffer, kernel_start): (Vec<u8>, u32) = match load_setup(
            kernel,
            self.patch_linux_setup_header(),
        ) {
            Ok(setup) => setup,
            Err(e) => {
                return Err(e);
            },
        };
        self.set_known(FW_CFG_SETUP_ADDR, FwCfgContent::U32(FW_CFG_SETUP_LOAD_ADDR));
        self.set_known(FW_CFG_KERNEL_ADDR, FwCfgContent::U32(FW_CFG_KERNEL_LOAD_ADDR));
        self.set_known(FW_CFG_SETUP_SIZE, FwCfgContent::U32(buffer.len() as u32));
        self.set_known(FW_CFG_SETUP_DATA, FwCfgContent::Bytes(buffer));
        let rest: u32 = (kernel.len % 0x1_0000_0000) as u32 - kernel_start;
        self.set_known(FW_CFG_KERNEL_SIZE, FwCfgContent::U32(rest));
        self.set_known(
            FW_CFG_KERNEL_DATA,
            FwCfgContent::File { file: kernel.file, offset: kernel_start as u64, len: kernel.len },
        );
        match self.add_item(FwCfgItem::of_file("etc/boot/kernel", kernel.file, kernel.len)) {
            Ok(()) => {},
            Err(e) => {
                return Err(e);
            },
        }
        self.add_linuxboot_option_rom(rom)
    }

    /// Adds a command line, given with its terminator.
    pub fn add_kernel_cmdline(&mut self, bytes: Vec<u8>)
        requires
            old(self).wf(),
        ensures
            final(self).wf(),
            final(self).state(None) == old(self).state(None).add_cmdline(
                bytes@,
                old(self).options().1,
            ),
            final(self).same_rest(old(self)),
    {
        self.set_known(FW_CFG_CMDLINE_ADDR, FwCfgContent::U32(FW_CFG_CMDLINE_LOAD_ADDR));
        if self.patch_linux_setup_header() {
            self.update_setup(SetupUpdate::CommandLine(FW_CFG_CMDLINE_LOAD_ADDR));
        }
        let size: u32 = (bytes.len() as u64 % 0x1_0000_0000) as u32;
        self.set_known(FW_CFG_CMDLINE_SIZE, FwCfgContent::U32(size));
        self.set_known(FW_CFG_CMDLINE_DATA, FwCfgContent::Bytes(bytes));
    }

    /// Adds ACPI tables and the script that loads them.
    pub fn add_acpi(&mut self, acpi_table: AcpiTable) -> (r: Result<(), FwCfgError>)
        requires
            old(self).wf(),
            old(self).items().len() + 3 <= MAX_FILES,
            acpi_table.wf(),
        ensures
            final(self).wf(),
            final(self).state(crate::devices::fw_cfg::device::error_of(r)) == old(self).state(None).add(
                crate::devices::fw_cfg::acpi_loader::memory_item(
                    "etc/table-loader"@,
                    crate::devices::fw_cfg::acpi_loader::loader_content(acpi_table),
                ),
            ).add(
                crate::devices::fw_cfg::acpi_loader::memory_item(
                    "etc/acpi/rsdp"@,
                    crate::devices::fw_cfg::acpi_loader::cleared_rsdp(acpi_table.rsdp@),
                ),
            ).add(
                crate::devices::fw_cfg::acpi_loader::memory_item(
                    "etc/acpi/tables"@,
                    crate::devices::fw_cfg::acpi_loader::tables_content(acpi_table),
                ),
            ),
            final(self).same_rest(old(self)),
    {
        let files: AcpiFiles = create_acpi_loader(acpi_table);
        match self.add_item(files.table_loader) {
            Ok(()) => {},
            Err(e) => {
                return Err(e);
            },
        }
        match self.add_item(files.rsdp) {
            Ok(()) => {},
            Err(e) => {
                return Err(e);
            },
        }
        self.add_item(files.tables)
    }

    /// Adds an initial file system, which has to fit below its end.
    pub fn add_initramfs_data(&mut self, file: u64, len: u64, mem_size: Option<usize>)
        requires
            old(self).wf(),
            len <= 0x7fff_ffff_ffff_ffff,
            len as int % 0x1_0000_0000 <= crate::devices::fw_cfg::boot::initrd_end(mem_size),
        ensures
            final(self).wf(),
            final(self).state(None) == old(self).state(None).add_initramfs(
                file,
                len,
                mem_size,
                old(self).options().1,
            ),
            final(self).same_rest(old(self)),
    {
        let size: u32 = (len % 0x1_0000_0000) as u32;
        let addr: u32 = initrd_address(mem_size, size);
        self.set_known(FW_CFG_INITRD_ADDR, FwCfgContent::U32(addr));
        if self.patch_linux_setup_header() {
            self.update_setup(SetupUpdate::Ramdisk { image: addr, size });
        }
        self.set_known(FW_CFG_INITRD_SIZE, FwCfgContent::U32(size));
        self.set_known(FW_CFG_INITRD_DATA, FwCfgContent::File { file, offset: 0, len });
    }

    /// Adds everything that a machine is started with.
    pub fn populate_fw_cfg(
        &mut self,
        mem_size: Option<usize>,
        kernel: Option<KernelFile>,
        initramfs: Option<(u64, u64)>,
        cmdline: Option<Vec<u8>>,
        fw_cfg_item_list: Option<Vec<FwCfgItem>>,
        roms: OptionRoms,
    ) -> (r: Result<(), FwCfgError>)
        requires
            old(self).wf(),
            old(self).items().len() + 14 + list_of(fw_cfg_item_list).len() <= MAX_FILES,
            kernel is Some ==> kernel->0.wf(),
            file_ok(initramfs),
            initramfs is Some ==> (initramfs->0).1 as int % 0x1_0000_0000
                <= crate::devices::fw_cfg::boot::initrd_end(mem_size),
            forall|i: int|
                0 <= i < list_of(fw_cfg_item_list).len() ==> (#[trigger] list_of(
                    fw_cfg_item_list,
                )[i]).content.ok(),
            file_ok(roms.kvmvapic),
            file_ok(roms.linuxboot),
        ensures
            final(self).wf(),
            final(self).state(crate::devices::fw_cfg::device::error_of(r)) == populated(
                old(self).state(None),
                old(self).options().1,
                mem_size,
                kernel,
                initramfs,
                cmdline,
                list_of(fw_cfg_item_list),
                roms.kvmvapic,
                old(self).rom_used(roms.linuxboot),
            ),
            final(self).same_rest(old(self)),
    {
        let ghost start = self.state(None);
        let ghost patch = self.options().1;
        let ghost list = list_of(fw_cfg_item_list);
        let ghost s1 = start.add_compat(roms.kvmvapic);
        let ghost s2 = with_memory(s1, mem_size);
        let ghost s3 = with_kernel(s2, kernel, patch, self.rom_used(roms.linuxboot));
        let ghost s4 = with_cmdline(s3, cmdline, patch);
        let ghost s5 = with_initramfs(s4, initramfs, mem_size, patch);
        proof {
            lemma_add_all_stops(s5, list, list.len());
        }
        match self.add_qemu_compat_files(roms.kvmvapic) {
            Ok(()) => {},
            Err(e) => {
                return Err(e);
            },
        }
        match mem_size {
            Some(mem_size) => {
                let mut size: Vec<u8> = Vec::new();
                push_u64_le(&mut size, mem_size as u64);
                assert(size@ =~= crate::bytes::u64_le(mem_size as u64));
                self.set_known(FW_CFG_RAM_SIZE, FwCfgContent::Bytes(size));
                match self.add_e820(mem_size) {
                    Ok(()) => {},
                    Err(e) => {
                        return Err(e);
                    },
                }
            },
            None => {},
        }
        assert(self.state(None) == s2);
        match &kernel {
            Some(kernel) => {
                match self.add_kernel_data(kernel, roms.linuxboot) {
                    Ok(()) => {},
                    Err(e) => {
                        return Err(e);
                    },
                }
            },
            None => {},
        }
        assert(self.state(None) == s3);
        match cmdline {
            Some(cmdline) => {
                self.add_kernel_cmdline(cmdline);
            },
            None => {},
        }
        assert(self.state(None) == s4);
        match initramfs {
            Some((file, len)) => {
                self.add_initramfs_data(file, len, mem_size);
            },
            None => {},
        }
        assert(self.state(None) == s5);
        match fw_cfg_item_list {
            Some(items) => {
                assert forall|i: int| 0 <= i < items@.len() implies (
                #[trigger] items@[i])@.content.ok() by {
                    assert(list[i] == items@[i]@);
                }
                self.add_items(items)
            },
            None => Ok(()),
        }
    }

    /// Adds several files.
    fn add_items(&mut self, new_items: Vec<FwCfgItem>) -> (r: Result<(), FwCfgError>)
        requires
            old(self).wf(),
            old(self).items().len() + new_items@.len() <= MAX_FILES,
            forall|i: int| 0 <= i < new_items@.len() ==> (#[trigger] new_items@[i])@.content.ok(),
        ensures
            final(self).wf(),
            final(self).state(crate::devices::fw_cfg::device::error_of(r)) == old(self).state(None).add_all(
                new_items@.map_values(|i: FwCfgItem| i@),
                new_items@.len(),
            ),
            final(self).same_rest(old(self)),
    {
        let ghost start = self.state(None);
        let ghost all = new_items@;
        let ghost list = new_items@.map_values(|i: FwCfgItem| i@);
        let mut items: Vec<FwCfgItem> = new_items;
        let n: usize = items.len();
        let mut i: usize = 0;
        while i < n
            invariant
                i <= n,
                n == list.len(),
                all.len() == n,
                all == new_items@,
                list == all.map_values(|i: FwCfgItem| i@),
                items@ == all.skip(i as int),
                self.wf(),
                self.same_rest(old(self)),
                self.items().len() + (n - i) <= MAX_FILES,
                forall|k: int| 0 <= k < all.len() ==> (#[trigger] all[k])@.content.ok(),
                self.state(None) == start.add_all(list, i as nat),
                start == old(self).state(None),
            decreases n - i,
        {
            assert(items@[0] == all[i as int]);
            let item: FwCfgItem = items.remove(0);
            assert(list[i as int] == item@);
            assert(items@ =~= all.skip(i + 1));
            match self.add_item(item) {
                Ok(()) => {},
                Err(e) => {
                    proof {
                        lemma_add_all_splits(start, list, (i + 1) as nat, list.len());
                    }
                    return Err(e);
                },
            }
            i = i + 1;
        }
        Ok(())
    }
}

/// Option ROMs that could be opened, by number and length.
#[derive(Clone, Copy, Debug)]
pub struct OptionRoms {
    pub kvmvapic: Option<(u64, u64)>,
    pub linuxboot: Option<(u64, u64)>,
}

/// A file is no longer than files can be.
pub open spec fn file_ok(file: Option<(u64, u64)>) -> bool {
    file is Some ==> (file->0).1 <= 0x7fff_ffff_ffff_ffff
}

/// Files of a list that may be absent.
pub open spec fn list_of(list: Option<Vec<FwCfgItem>>) -> Seq<ItemView> {
    match list {
        Some(items) => items@.map_values(|i: FwCfgItem| i@),
        None => Seq::empty(),
    }
}

/// With the size of memory and its map.
pub open spec fn with_memory(s: FwCfgState, mem_size: Option<usize>) -> FwCfgState {
    match mem_size {
        Some(mem_size) => s.set(
            FW_CFG_RAM_SIZE,
            ContentView::Data(crate::bytes::u64_le(mem_size as u64)),
        ).add_e820(mem_size),
        None => s,
    }
}

/// With a kernel, if there is one.
pub open spec fn with_kernel(
    s: FwCfgState,
    kernel: Option<KernelFile>,
    patch: bool,
    rom: Option<(u64, u64)>,
) -> FwCfgState {
    match kernel {
        Some(kernel) => s.add_kernel(kernel, patch, rom),
        None => s,
    }
}

/// With a command line, if there is one.
pub open spec fn with_cmdline(s: FwCfgState, cmdline: Option<Vec<u8>>, patch: bool) -> FwCfgState {
    match cmdline {
        Some(bytes) => s.add_cmdline(bytes@, patch),
        None => s,
    }
}

/// With an initial file system, if there is one.
pub open spec fn with_initramfs(
    s: FwCfgState,
    initramfs: Option<(u64, u64)>,
    mem_size: Option<usize>,
    patch: bool,
) -> FwCfgState {
    match initramfs {
        Some((file, len)) => s.add_initramfs(file, len, mem_size, patch),
        None => s,
    }
}

/// With everything that a machine is started with: the platform's files, memory,
/// kernel, command line, initial file system, and files of the user. The first
/// error stops what follows.
pub open spec fn populated(
    s: FwCfgState,
    patch: bool,
    mem_size: Option<usize>,
    kernel: Option<KernelFile>,
    initramfs: Option<(u64, u64)>,
    cmdline: Option<Vec<u8>>,
    list: Seq<ItemView>,
    kvmvapic: Option<(u64, u64)>,
    linuxboot: Option<(u64, u64)>,
) -> FwCfgState {
    with_initramfs(
        with_cmdline(
            with_kernel(with_memory(s.add_compat(kvmvapic), mem_size), kernel, patch, linuxboot),
            cmdline,
            patch,
        ),
        initramfs,
        mem_size,
        patch,
    ).add_all(list, list.len())
}

proof fn lemma_add_all_stops(s: FwCfgState, list: Seq<ItemView>, n: nat)
    ensures
        s.error is Some ==> s.add_all(list, n) == s,
    decreases n,
{
    if n > 0 {
        lemma_add_all_stops(s, list, (n - 1) as nat);
    }
}

proof fn lemma_add_all_splits(s: FwCfgState, list: Seq<ItemView>, k: nat, n: nat)
    requires
        k <= n,
        s.add_all(list, k).error is Some,
    ensures
        s.add_all(list, n) == s.add_all(list, k),
    decreases n,
{
    if k < n {
        lemma_add_all_splits(s, list, k, (n - 1) as nat);
    }
}

/// Whether all that one state has is still there in another, but for what is
/// behind some selectors, unless an error has come up.
pub open spec fn carried(s: FwCfgState, t: FwCfgState, changed: Set<int>) -> bool {
    &&& s.known.len() == 32 ==> t.known.len() == 32
    &&& t.error is None ==> {
        &&& s.error is None
        &&& forall|it: ItemView| s.items.contains(it) ==> #[trigger] t.items.contains(it)
        &&& forall|k: int|
            0 <= k < s.known.len() && !changed.contains(k) ==> #[trigger] t.known[k] == s.known[k]
    }
}

proof fn lemma_carried(
    a: FwCfgState,
    b: FwCfgState,
    c: FwCfgState,
    first: Set<int>,
    second: Set<int>,
)
    requires
        a.known.len() == 32,
        carried(a, b, first),
        carried(b, c, second),
    ensures
        carried(a, c, first.union(second)),
{
}

proof fn lemma_add(s: FwCfgState, item: ItemView)
    requires
        s.known.len() == 32,
    ensures
        carried(s, s.add(item), set![0x19]),
        s.add(item).error is None ==> s.add(item).items.contains(item),
{
    if s.error is None && item.content.size() <= u32::MAX
        && !crate::devices::fw_cfg::state::has_file(s.items, item.name) {
        let p = crate::devices::fw_cfg::state::place(s.items, item.name, 0);
        crate::devices::fw_cfg::state::lemma_place_bounds(s.items, item.name, 0);
        let after = s.items.insert(p, item);
        assert(s.add(item).items == after);
        assert(after[p] == item);
        assert forall|it: ItemView| s.items.contains(it) implies #[trigger] after.contains(it) by {
            let i = choose|i: int| 0 <= i < s.items.len() && s.items[i] == it;
            if i < p {
                assert(after[i] == it);
            } else {
                assert(after[i + 1] == it);
            }
        }
    }
}

proof fn lemma_add_if_missing(s: FwCfgState, item: ItemView)
    requires
        s.known.len() == 32,
    ensures
        carried(s, s.add_if_missing(item), set![0x19]),
{
    lemma_add(s, item);
}

proof fn lemma_add_all(s: FwCfgState, list: Seq<ItemView>, n: nat)
    requires
        s.known.len() == 32,
        n <= list.len(),
    ensures
        carried(s, s.add_all(list, n), set![0x19]),
        s.add_all(list, n).error is None ==> forall|i: int|
            0 <= i < n ==> s.add_all(list, n).items.contains(#[trigger] list[i]),
    decreases n,
{
    if n > 0 {
        let m = (n - 1) as nat;
        lemma_add_all(s, list, m);
        let before = s.add_all(list, m);
        lemma_add(before, list[n - 1]);
        lemma_carried(s, before, s.add_all(list, n), set![0x19], set![0x19]);
        assert(set![0x19int].union(set![0x19int]) =~= set![0x19int]);
    }
}

proof fn lemma_compat(s: FwCfgState, kvmvapic: Option<(u64, u64)>)
    requires
        s.known.len() == 32,
    ensures
        carried(s, s.add_compat(kvmvapic), set![0x19]),
{
    let i0 = crate::devices::fw_cfg::acpi_loader::memory_item("bios-geometry"@, Seq::empty());
    let s0 = s.add_if_missing(i0);
    lemma_add_if_missing(s, i0);
    let i1 = crate::devices::fw_cfg::acpi_loader::memory_item("etc/boot-fail-wait"@, seq![0xffu8, 0xff, 0xff, 0xff]);
    let s1 = s0.add_if_missing(i1);
    lemma_add_if_missing(s0, i1);
    let i2 = crate::devices::fw_cfg::acpi_loader::memory_item("etc/smbios/smbios-anchor"@, crate::devices::fw_cfg::smbios::smbios_anchor());
    let s2 = s1.add_if_missing(i2);
    lemma_add_if_missing(s1, i2);
    let i3 = crate::devices::fw_cfg::acpi_loader::memory_item("etc/smbios/smbios-tables"@, crate::devices::fw_cfg::smbios::smbios_tables());
    let s3 = s2.add_if_missing(i3);
    lemma_add_if_missing(s2, i3);
    let i4 = crate::devices::fw_cfg::acpi_loader::memory_item("etc/smi/features-ok"@, seq![1u8]);
    let s4 = s3.add_if_missing(i4);
    lemma_add_if_missing(s3, i4);
    let i5 = crate::devices::fw_cfg::acpi_loader::memory_item("etc/smi/requested-features"@, crate::bytes::u64_le(0));
    let s5 = s4.add_if_missing(i5);
    lemma_add_if_missing(s4, i5);
    let i6 = crate::devices::fw_cfg::acpi_loader::memory_item("etc/smi/supported-features"@, crate::bytes::u64_le(7));
    let s6 = s5.add_if_missing(i6);
    lemma_add_if_missing(s5, i6);
    let i7 = crate::devices::fw_cfg::acpi_loader::memory_item("etc/system-states"@, seq![128u8, 0, 0, 129, 128, 128]);
    let s7 = s6.add_if_missing(i7);
    lemma_add_if_missing(s6, i7);
    let i8 = crate::devices::fw_cfg::acpi_loader::memory_item("etc/tpm/log"@, Seq::empty());
    let s8 = s7.add_if_missing(i8);
    lemma_add_if_missing(s7, i8);
    let i9 = ItemView {
        name: "genroms/kvmvapic.bin"@,
        content: match kvmvapic {
            Some((file, len)) => ContentView::File { file, offset: 0, len },
            None => ContentView::Data(Seq::empty()),
        },
    };
    let s9 = s8.add_if_missing(i9);
    lemma_add_if_missing(s8, i9);
    let one = set![0x19int];
    assert(one.union(one) =~= one);
    lemma_carried(s, s0, s1, one, one);
    lemma_carried(s, s1, s2, one, one);
    lemma_carried(s, s2, s3, one, one);
    lemma_carried(s, s3, s4, one, one);
    lemma_carried(s, s4, s5, one, one);
    lemma_carried(s, s5, s6, one, one);
    lemma_carried(s, s6, s7, one, one);
    lemma_carried(s, s7, s8, one, one);
    lemma_carried(s, s8, s9, one, one);
    assert(s.add_compat(kvmvapic) == s9);
}

proof fn lemma_memory(s: FwCfgState, mem_size: usize)
    requires
        s.known.len() == 32,
    ensures
        ({
            let t = with_memory(s, Some(mem_size));
            &&& carried(s, t, set![0x03, 0x19])
            &&& t.error is None ==> {
                &&& t.known[0x03] == ContentView::Data(crate::bytes::u64_le(mem_size as u64))
                &&& t.items.contains(
                    ItemView {
                        name: "etc/e820"@,
                        content: ContentView::Data(
                            crate::devices::fw_cfg::boot::e820_map(mem_size as int),
                        ),
                    },
                )
            }
        }),
{
    let u = s.set(
        FW_CFG_RAM_SIZE,
        ContentView::Data(crate::bytes::u64_le(mem_size as u64)),
    );
    let item = crate::devices::fw_cfg::acpi_loader::memory_item(
        "etc/e820"@,
        crate::devices::fw_cfg::boot::e820_map(mem_size as int),
    );
    lemma_add(u, item);
}

proof fn lemma_kernel(s: FwCfgState, kernel: KernelFile, patch: bool, rom: Option<(u64, u64)>)
    requires
        s.known.len() == 32,
        kernel.wf(),
    ensures
        ({
            let t = s.add_kernel(kernel, patch, rom);
            let start = crate::devices::fw_cfg::boot::kernel_start(kernel.prefix@);
            &&& carried(s, t, set![0x07, 0x08, 0x11, 0x16, 0x17, 0x18, 0x19])
            &&& t.error is None ==> {
                &&& kernel.has_setup()
                &&& t.known[0x11] == (ContentView::File {
                    file: kernel.file,
                    offset: start as u64,
                    len: kernel.len,
                })
                &&& t.known[0x18] == ContentView::Data(
                    crate::devices::fw_cfg::boot::setup_data(kernel.prefix@, patch),
                )
                &&& t.known[0x07] == ContentView::Word(0x10_0000)
                &&& t.known[0x16] == ContentView::Word(0x1_0000)
                &&& t.items.contains(
                    ItemView {
                        name: "etc/boot/kernel"@,
                        content: ContentView::File {
                            file: kernel.file,
                            offset: 0,
                            len: kernel.len,
                        },
                    },
                )
                &&& rom matches Some((file, len)) ==> t.items.contains(
                    ItemView {
                        name: "genroms/linuxboot_dma.bin"@,
                        content: ContentView::File { file, offset: 0, len },
                    },
                )
            }
        }),
{
    if kernel.has_setup() {
        let bare = s.add_kernel(kernel, patch, None);
        let setup = crate::devices::fw_cfg::boot::setup_data(kernel.prefix@, patch);
        let start = crate::devices::fw_cfg::boot::kernel_start(kernel.prefix@);
        let set = s.set(0x16, ContentView::Word(0x1_0000)).set(
            0x07,
            ContentView::Word(0x10_0000),
        ).set(0x17, ContentView::Word(setup.len() as u32)).set(0x18, ContentView::Data(setup)).set(
            0x08,
            ContentView::Word((kernel.len as int % 0x1_0000_0000 - start) as u32),
        ).set(
            0x11,
            ContentView::File { file: kernel.file, offset: start as u64, len: kernel.len },
        );
        let item = ItemView {
            name: "etc/boot/kernel"@,
            content: ContentView::File { file: kernel.file, offset: 0, len: kernel.len },
        };
        assert(bare == set.add(item));
        lemma_add(set, item);
        let all = set![0x07int, 0x08, 0x11, 0x16, 0x17, 0x18, 0x19];
        assert(carried(s, bare, all));
        if let Some((file, len)) = rom {
            let image = ItemView {
                name: "genroms/linuxboot_dma.bin"@,
                content: ContentView::File { file, offset: 0, len },
            };
            let order = crate::devices::fw_cfg::acpi_loader::memory_item(
                "bootorder"@,
                vstd::utf8::encode_utf8("/rom@genroms/linuxboot_dma.bin"@).push(0),
            );
            lemma_add(bare, image);
            lemma_add(bare.add(image), order);
            lemma_carried(bare, bare.add(image), bare.add(image).add(order), set![0x19], set![0x19]);
            assert(set![0x19int].union(set![0x19int]) =~= set![0x19int]);
            lemma_carried(s, bare, bare.add(image).add(order), all, set![0x19]);
            assert(all.union(set![0x19int]) =~= all);
        }
    }
}

proof fn lemma_cmdline(s: FwCfgState, bytes: Seq<u8>, patch: bool)
    requires
        s.known.len() == 32,
    ensures
        ({
            let t = s.add_cmdline(bytes, patch);
            &&& carried(s, t, set![0x13, 0x14, 0x15, 0x18])
            &&& t.error is None ==> t.known[0x15] == ContentView::Data(bytes)
            &&& t.error is None ==> t.known[0x13] == ContentView::Word(0x2_0000)
        }),
{
}

proof fn lemma_initramfs(
    s: FwCfgState,
    file: u64,
    len: u64,
    mem_size: Option<usize>,
    patch: bool,
)
    requires
        s.known.len() == 32,
    ensures
        ({
            let t = s.add_initramfs(file, len, mem_size, patch);
            &&& carried(s, t, set![0x0a, 0x0b, 0x12, 0x18])
            &&& t.error is None ==> t.known[0x12] == (ContentView::File { file, offset: 0, len })
        }),
{
}

/// A machine that is set up without an error gets all that it was given: the size
/// and map of its memory, both parts of the kernel and its image, the command
/// line, the initial file system and the files of the user, each behind its own
/// selector or under its own name. None of it takes the place of another, and no
/// file that was there before is lost.
pub proof fn machine_gets_all_it_was_given(
    s: FwCfgState,
    patch: bool,
    mem_size: Option<usize>,
    kernel: Option<KernelFile>,
    initramfs: Option<(u64, u64)>,
    cmdline: Option<Vec<u8>>,
    list: Seq<ItemView>,
    kvmvapic: Option<(u64, u64)>,
    linuxboot: Option<(u64, u64)>,
)
    requires
        s.known.len() == 32,
        kernel matches Some(k) ==> k.wf(),
    ensures
        ({
            let t = populated(
                s,
                patch,
                mem_size,
                kernel,
                initramfs,
                cmdline,
                list,
                kvmvapic,
                linuxboot,
            );
            t.error is None ==> {
                &&& s.error is None
                &&& forall|it: ItemView| s.items.contains(it) ==> #[trigger] t.items.contains(it)
                &&& forall|i: int|
                    0 <= i < list.len() ==> t.items.contains(#[trigger] list[i])
                &&& mem_size matches Some(m) ==> {
                    &&& t.known[0x03] == ContentView::Data(crate::bytes::u64_le(m as u64))
                    &&& t.items.contains(
                        ItemView {
                            name: "etc/e820"@,
                            content: ContentView::Data(
                                crate::devices::fw_cfg::boot::e820_map(m as int),
                            ),
                        },
                    )
                }
                &&& kernel matches Some(k) ==> {
                    &&& t.known[0x11] == (ContentView::File {
                        file: k.file,
                        offset: crate::devices::fw_cfg::boot::kernel_start(k.prefix@) as u64,
                        len: k.len,
                    })
                    &&& t.known[0x07] == ContentView::Word(0x10_0000)
                    &&& t.known[0x16] == ContentView::Word(0x1_0000)
                    &&& t.items.contains(
                        ItemView {
                            name: "etc/boot/kernel"@,
                            content: ContentView::File { file: k.file, offset: 0, len: k.len },
                        },
                    )
                    &&& linuxboot matches Some((file, len)) ==> t.items.contains(
                        ItemView {
                            name: "genroms/linuxboot_dma.bin"@,
                            content: ContentView::File { file, offset: 0, len },
                        },
                    )
                }
                &&& cmdline matches Some(b) ==> t.known[0x15] == ContentView::Data(b@)
                    && t.known[0x13] == ContentView::Word(0x2_0000)
                &&& initramfs matches Some((file, len)) ==> t.known[0x12] == (ContentView::File {
                    file,
                    offset: 0,
                    len,
                })
            }
        }),
{
    let s1 = s.add_compat(kvmvapic);
    let s2 = with_memory(s1, mem_size);
    let s3 = with_kernel(s2, kernel, patch, linuxboot);
    let s4 = with_cmdline(s3, cmdline, patch);
    let s5 = with_initramfs(s4, initramfs, mem_size, patch);
    let t = s5.add_all(list, list.len());
    lemma_compat(s, kvmvapic);
    if let Some(m) = mem_size {
        lemma_memory(s1, m);
    }
    if let Some(k) = kernel {
        lemma_kernel(s2, k, patch, linuxboot);
    }
    if let Some(b) = cmdline {
        lemma_cmdline(s3, b@, patch);
    }
    if let Some((file, len)) = initramfs {
        lemma_initramfs(s4, file, len, mem_size, patch);
    }
    lemma_add_all(s5, list, list.len());
    assert(carried(s1, s2, set![0x03, 0x19]));
    assert(carried(s2, s3, set![0x07, 0x08, 0x11, 0x16, 0x17, 0x18, 0x19]));
    assert(carried(s3, s4, set![0x13, 0x14, 0x15, 0x18]));
    assert(carried(s4, s5, set![0x0a, 0x0b, 0x12, 0x18]));
    assert(carried(s5, t, set![0x19]));
}

/// A file of the platform with these bytes.
pub open spec fn platform_file(name: Seq<char>, bytes: Seq<u8>) -> ItemView {
    ItemView { name, content: ContentView::Data(bytes) }
}

proof fn lemma_fresh_add(s: FwCfgState, item: ItemView)
    requires
        s.known.len() == 32,
        s.error is None,
        !crate::devices::fw_cfg::state::has_file(s.items, item.name),
        item.content.size() <= u32::MAX,
    ensures
        ({
            let t = s.add_if_missing(item);
            &&& t.known.len() == 32
            &&& t.error is None
            &&& t.items.contains(item)
            &&& forall|it: ItemView| s.items.contains(it) ==> #[trigger] t.items.contains(it)
            &&& forall|n: Seq<char>|
                #[trigger] crate::devices::fw_cfg::state::has_file(t.items, n)
                    ==> crate::devices::fw_cfg::state::has_file(s.items, n) || n == item.name
        }),
{
    lemma_add(s, item);
    let t = s.add_if_missing(item);
    let p = crate::devices::fw_cfg::state::place(s.items, item.name, 0);
    crate::devices::fw_cfg::state::lemma_place_bounds(s.items, item.name, 0);
    assert(t.items == s.items.insert(p, item));
    assert forall|n: Seq<char>| #[trigger]
        crate::devices::fw_cfg::state::has_file(t.items, n) implies crate::devices::fw_cfg::state::has_file(
        s.items,
        n,
    ) || n == item.name by {
        let i = choose|i: int| 0 <= i < t.items.len() && (#[trigger] t.items[i]).name == n;
        if i < p {
            assert(s.items[i].name == n);
        } else if i > p {
            assert(s.items[i - 1].name == n);
        }
    }
}

/// What the files of `list` make of the device, one after the other.
spec fn all_added(s: FwCfgState, list: Seq<ItemView>) -> FwCfgState
    decreases list.len(),
{
    if list.len() == 0 {
        s
    } else {
        all_added(s, list.drop_last()).add_if_missing(list.last())
    }
}

proof fn lemma_all_added(s: FwCfgState, list: Seq<ItemView>)
    requires
        s.known.len() == 32,
        s.error is None,
        s.items.len() == 0,
        forall|i: int| 0 <= i < list.len() ==> (#[trigger] list[i]).content.size() <= u32::MAX,
        forall|i: int, j: int|
            0 <= i < j < list.len() ==> (#[trigger] list[i]).name != (#[trigger] list[j]).name,
    ensures
        ({
            let t = all_added(s, list);
            &&& t.known.len() == 32
            &&& t.error is None
            &&& forall|i: int| 0 <= i < list.len() ==> t.items.contains(#[trigger] list[i])
            &&& forall|n: Seq<char>|
                #[trigger] crate::devices::fw_cfg::state::has_file(t.items, n) ==> exists|i: int|
                    0 <= i < list.len() && (#[trigger] list[i]).name == n
        }),
    decreases list.len(),
{
    if list.len() > 0 {
        let front = list.drop_last();
        let u = all_added(s, front);
        assert forall|i: int, j: int| 0 <= i < j < front.len() implies (#[trigger] front[i]).name
            != (#[trigger] front[j]).name by {
            assert(list[i].name != list[j].name);
        }
        assert forall|i: int| 0 <= i < front.len() implies (#[trigger] front[i]).content.size()
            <= u32::MAX by {
            assert(front[i] == list[i]);
        }
        lemma_all_added(s, front);
        if crate::devices::fw_cfg::state::has_file(u.items, list.last().name) {
            let i = choose|i: int|
                0 <= i < front.len() && (#[trigger] front[i]).name == list.last().name;
            assert(list[i].name != list[list.len() - 1].name);
        }
        lemma_fresh_add(u, list.last());
        let t = all_added(s, list);
        assert forall|i: int| 0 <= i < list.len() implies t.items.contains(#[trigger] list[i]) by {
            if i < front.len() {
                assert(front[i] == list[i]);
            }
        }
        assert forall|n: Seq<char>| #[trigger]
            crate::devices::fw_cfg::state::has_file(t.items, n) implies exists|i: int|
            0 <= i < list.len() && (#[trigger] list[i]).name == n by {
            if crate::devices::fw_cfg::state::has_file(u.items, n) {
                let i = choose|i: int| 0 <= i < front.len() && (#[trigger] front[i]).name == n;
                assert(list[i].name == n);
            } else {
                assert(list[list.len() - 1].name == n);
            }
        }
    }
}

/// The files that firmware expects on the platform: three features for system
/// management, none of which is requested, and two of the sleep states.
pub open spec fn platform_files(kvmvapic: Option<(u64, u64)>) -> Seq<ItemView> {
    seq![
        platform_file("bios-geometry"@, Seq::empty()),
        platform_file("etc/boot-fail-wait"@, seq![0xffu8, 0xff, 0xff, 0xff]),
        platform_file(
            "etc/smbios/smbios-anchor"@,
            crate::devices::fw_cfg::smbios::smbios_anchor(),
        ),
        platform_file(
            "etc/smbios/smbios-tables"@,
            crate::devices::fw_cfg::smbios::smbios_tables(),
        ),
        platform_file("etc/smi/features-ok"@, seq![1u8]),
        platform_file("etc/smi/requested-features"@, seq![0u8, 0, 0, 0, 0, 0, 0, 0]),
        platform_file("etc/smi/supported-features"@, seq![7u8, 0, 0, 0, 0, 0, 0, 0]),
        platform_file("etc/system-states"@, seq![128u8, 0, 0, 129, 128, 128]),
        platform_file("etc/tpm/log"@, Seq::empty()),
        ItemView {
            name: "genroms/kvmvapic.bin"@,
            content: match kvmvapic {
                Some((file, len)) => ContentView::File { file, offset: 0, len },
                None => ContentView::Data(Seq::empty()),
            },
        },
    ]
}

/// A number by which the names of the platform's files are told apart.
spec fn name_key(n: Seq<char>) -> int {
    if n.len() == 24 && n[18] == 't' {
        100
    } else if n.len() == 26 && n[8] == 's' {
        101
    } else {
        n.len() as int
    }
}

proof fn lemma_name_keys()
    ensures
        name_key("bios-geometry"@) == 13,
        name_key("etc/boot-fail-wait"@) == 18,
        name_key("etc/smbios/smbios-anchor"@) == 24,
        name_key("etc/smbios/smbios-tables"@) == 100,
        name_key("etc/smi/features-ok"@) == 19,
        name_key("etc/smi/requested-features"@) == 26,
        name_key("etc/smi/supported-features"@) == 101,
        name_key("etc/system-states"@) == 17,
        name_key("etc/tpm/log"@) == 11,
        name_key("genroms/kvmvapic.bin"@) == 20,
{
    assert(name_key("bios-geometry"@) == 13) by {
        reveal_strlit("bios-geometry");
        assert("bios-geometry"@.len() == 13);
    }
    assert(name_key("etc/boot-fail-wait"@) == 18) by {
        reveal_strlit("etc/boot-fail-wait");
        assert("etc/boot-fail-wait"@.len() == 18);
    }
    assert(name_key("etc/smbios/smbios-anchor"@) == 24) by {
        reveal_strlit("etc/smbios/smbios-anchor");
        assert("etc/smbios/smbios-anchor"@.len() == 24);
        assert("etc/smbios/smbios-anchor"@[18] == 'a');
    }
    assert(name_key("etc/smbios/smbios-tables"@) == 100) by {
        reveal_strlit("etc/smbios/smbios-tables");
        assert("etc/smbios/smbios-tables"@.len() == 24);
        assert("etc/smbios/smbios-tables"@[18] == 't');
    }
    assert(name_key("etc/smi/features-ok"@) == 19) by {
        reveal_strlit("etc/smi/features-ok");
        assert("etc/smi/features-ok"@.len() == 19);
    }
    assert(name_key("etc/smi/requested-features"@) == 26) by {
        reveal_strlit("etc/smi/requested-features");
        assert("etc/smi/requested-features"@.len() == 26);
        assert("etc/smi/requested-features"@[8] == 'r');
    }
    assert(name_key("etc/smi/supported-features"@) == 101) by {
        reveal_strlit("etc/smi/supported-features");
        assert("etc/smi/supported-features"@.len() == 26);
        assert("etc/smi/supported-features"@[8] == 's');
    }
    assert(name_key("etc/system-states"@) == 17) by {
        reveal_strlit("etc/system-states");
        assert("etc/system-states"@.len() == 17);
    }
    assert(name_key("etc/tpm/log"@) == 11) by {
        reveal_strlit("etc/tpm/log");
        assert("etc/tpm/log"@.len() == 11);
    }
    assert(name_key("genroms/kvmvapic.bin"@) == 20) by {
        reveal_strlit("genroms/kvmvapic.bin");
        assert("genroms/kvmvapic.bin"@.len() == 20);
    }
}

proof fn lemma_platform_names_differ(kvmvapic: Option<(u64, u64)>)
    ensures
        ({
            let list = platform_files(kvmvapic);
            forall|i: int, j: int|
                0 <= i < j < list.len() ==> (#[trigger] list[i]).name != (#[trigger] list[j]).name
        }),
{
    lemma_name_keys();
    let list = platform_files(kvmvapic);
    let keys: Seq<int> = seq![13, 18, 24, 100, 19, 26, 101, 17, 11, 20];
    assert forall|i: int| 0 <= i < 10 implies name_key((#[trigger] list[i]).name) == keys[i] by {
    }
    assert forall|i: int, j: int| 0 <= i < j < list.len() implies (#[trigger] list[i]).name != (
    #[trigger] list[j]).name by {
        assert(keys[i] != keys[j]);
    }
}

proof fn lemma_one_more(s: FwCfgState, list: Seq<ItemView>, k: int)
    requires
        0 <= k < list.len(),
    ensures
        all_added(s, list.take(k + 1)) == all_added(s, list.take(k)).add_if_missing(list[k]),
{
    assert(list.take(k + 1).drop_last() =~= list.take(k));
}

#[verifier::opaque]
spec fn ten_added(
    s: FwCfgState,
    a0: ItemView,
    a1: ItemView,
    a2: ItemView,
    a3: ItemView,
    a4: ItemView,
    a5: ItemView,
    a6: ItemView,
    a7: ItemView,
    a8: ItemView,
    a9: ItemView,
) -> FwCfgState {
    s.add_if_missing(a0).add_if_missing(a1).add_if_missing(a2).add_if_missing(a3).add_if_missing(a4).add_if_missing(a5).add_if_missing(a6).add_if_missing(a7).add_if_missing(a8).add_if_missing(a9)
}

proof fn lemma_ten_added(s: FwCfgState, list: Seq<ItemView>)
    requires
        list.len() == 10,
    ensures
        all_added(s, list) == ten_added(
            s,
            list[0],
            list[1],
            list[2],
            list[3],
            list[4],
            list[5],
            list[6],
            list[7],
            list[8],
            list[9],
        ),
{
    reveal(ten_added);
    assert(list.take(10) =~= list);
    lemma_one_more(s, list, 0);
    lemma_one_more(s, list, 1);
    lemma_one_more(s, list, 2);
    lemma_one_more(s, list, 3);
    lemma_one_more(s, list, 4);
    lemma_one_more(s, list, 5);
    lemma_one_more(s, list, 6);
    lemma_one_more(s, list, 7);
    lemma_one_more(s, list, 8);
    lemma_one_more(s, list, 9);
}

proof fn lemma_feature_words()
    ensures
        crate::bytes::u64_le(0) == seq![0u8, 0, 0, 0, 0, 0, 0, 0],
        crate::bytes::u64_le(7) == seq![7u8, 0, 0, 0, 0, 0, 0, 0],
{
}

proof fn lemma_platform_items(kvmvapic: Option<(u64, u64)>)
    ensures
        platform_files(kvmvapic).len() == 10,
        platform_files(kvmvapic)[0] == crate::devices::fw_cfg::acpi_loader::memory_item("bios-geometry"@, Seq::empty()),
        platform_files(kvmvapic)[1] == crate::devices::fw_cfg::acpi_loader::memory_item( "etc/boot-fail-wait"@, seq![0xffu8, 0xff, 0xff, 0xff], ),
        platform_files(kvmvapic)[2] == crate::devices::fw_cfg::acpi_loader::memory_item( "etc/smbios/smbios-anchor"@, crate::devices::fw_cfg::smbios::smbios_anchor(), ),
        platform_files(kvmvapic)[3] == crate::devices::fw_cfg::acpi_loader::memory_item( "etc/smbios/smbios-tables"@, crate::devices::fw_cfg::smbios::smbios_tables(), ),
        platform_files(kvmvapic)[4] == crate::devices::fw_cfg::acpi_loader::memory_item("etc/smi/features-ok"@, seq![1u8]),
        platform_files(kvmvapic)[5] == crate::devices::fw_cfg::acpi_loader::memory_item( "etc/smi/requested-features"@, crate::bytes::u64_le(0), ),
        platform_files(kvmvapic)[6] == crate::devices::fw_cfg::acpi_loader::memory_item( "etc/smi/supported-features"@, crate::bytes::u64_le(7), ),
        platform_files(kvmvapic)[7] == crate::devices::fw_cfg::acpi_loader::memory_item( "etc/system-states"@, seq![128u8, 0, 0, 129, 128, 128], ),
        platform_files(kvmvapic)[8] == crate::devices::fw_cfg::acpi_loader::memory_item("etc/tpm/log"@, Seq::empty()),
        platform_files(kvmvapic)[9] == (ItemView { name: "genroms/kvmvapic.bin"@, content: match kvmvapic { Some((file, len)) => ContentView::File { file, offset: 0, len }, None => ContentView::Data(Seq::empty()), }, }),
{
    lemma_feature_words();
}

#[verifier::opaque]
spec fn compat_added(s: FwCfgState, kvmvapic: Option<(u64, u64)>) -> FwCfgState {
    s.add_compat(kvmvapic)
}

proof fn lemma_compat_is_ten(s: FwCfgState, kvmvapic: Option<(u64, u64)>)
    ensures
        compat_added(s, kvmvapic) == ten_added(
            s,
            platform_files(kvmvapic)[0],
            platform_files(kvmvapic)[1],
            platform_files(kvmvapic)[2],
            platform_files(kvmvapic)[3],
            platform_files(kvmvapic)[4],
            platform_files(kvmvapic)[5],
            platform_files(kvmvapic)[6],
            platform_files(kvmvapic)[7],
            platform_files(kvmvapic)[8],
            platform_files(kvmvapic)[9],
        ),
{
    reveal(ten_added);
    reveal(compat_added);
    lemma_platform_items(kvmvapic);
}

proof fn lemma_compat_holds_all(s: FwCfgState, kvmvapic: Option<(u64, u64)>)
    requires
        s.known.len() == 32,
        s.error is None,
        s.items.len() == 0,
        kvmvapic matches Some((_, len)) ==> len <= u32::MAX,
    ensures
        compat_added(s, kvmvapic).error is None,
        forall|i: int|
            0 <= i < 10 ==> compat_added(s, kvmvapic).items.contains(
                #[trigger] platform_files(kvmvapic)[i],
            ),
{
    lemma_platform_names_differ(kvmvapic);
    lemma_platform_sizes(kvmvapic);
    lemma_all_added(s, platform_files(kvmvapic));
    lemma_ten_added(s, platform_files(kvmvapic));
    lemma_compat_is_ten(s, kvmvapic);
}

proof fn lemma_platform_sizes(kvmvapic: Option<(u64, u64)>)
    requires
        kvmvapic matches Some((_, len)) ==> len <= u32::MAX,
    ensures
        forall|i: int|
            0 <= i < 10 ==> (#[trigger] platform_files(kvmvapic)[i]).content.size() <= u32::MAX,
{
    assert(crate::devices::fw_cfg::smbios::smbios_anchor().len() == 24);
    assert(crate::devices::fw_cfg::smbios::smbios_tables().len() == 0x13b);
}

/// Firmware finds every file that it expects on the platform, each with its bytes,
/// in a device that held no file before.
pub proof fn firmware_finds_the_platform_files(s: FwCfgState, kvmvapic: Option<(u64, u64)>)
    requires
        s.known.len() == 32,
        s.error is None,
        s.items.len() == 0,
        kvmvapic matches Some((_, len)) ==> len <= u32::MAX,
    ensures
        s.add_compat(kvmvapic).error is None,
        forall|i: int|
            0 <= i < 10 ==> s.add_compat(kvmvapic).items.contains(
                #[trigger] platform_files(kvmvapic)[i],
            ),
{
    lemma_compat_holds_all(s, kvmvapic);
    reveal(compat_added);
}

} // verus!
