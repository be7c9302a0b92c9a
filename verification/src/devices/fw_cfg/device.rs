//! The firmware configuration device.
use crate::bytes::{
    push_bytes, push_u16_be, push_u16_le, push_u32_be, push_u32_le, push_zeros, read_u16_le,
    read_u32_be, read_u64_be,
};
use crate::devices::fw_cfg::boot::{update_setup_data, SetupUpdate};
use crate::devices::fw_cfg::content::{ContentView, FwCfgContent, FwCfgError, FwCfgItem, ItemView};
use crate::devices::fw_cfg::names::{create_file_name, is_name_before};
use crate::devices::fw_cfg::state::{
    FwCfgState, FW_CFG_ACPI_TABLES, FW_CFG_BOOT_DEVICE, FW_CFG_BOOT_MENU, FW_CFG_CMDLINE_ADDR,
    FW_CFG_CMDLINE_DATA, FW_CFG_CMDLINE_SIZE, FW_CFG_FILE_DIR, FW_CFG_FILE_FIRST, FW_CFG_HPET,
    FW_CFG_ID, FW_CFG_INITRD_ADDR, FW_CFG_INITRD_DATA, FW_CFG_INITRD_SIZE, FW_CFG_IRQ0_OVERRIDE,
    FW_CFG_KERNEL_ADDR, FW_CFG_KERNEL_DATA, FW_CFG_KERNEL_ENTRY, FW_CFG_KERNEL_SIZE,
    FW_CFG_MAX_CPUS, FW_CFG_NB_CPUS, FW_CFG_NOGRAPHIC, FW_CFG_NUMA, FW_CFG_RAM_SIZE,
    FW_CFG_SETUP_ADDR, FW_CFG_SETUP_DATA, FW_CFG_SETUP_SIZE, FW_CFG_SIGNATURE, FW_CFG_UUID,
    MAX_FILES,
};
use std::collections::BTreeMap;
use vstd::prelude::*;

verus! {

broadcast use vstd::std_specs::btree::group_btree_axioms;

/// First port.
pub const PORT_FW_CFG_BASE: u64 = 0x510;

/// Number of ports.
pub const PORT_FW_CFG_WIDTH: u64 = 0xc;

pub const PORT_FW_CFG_SELECTOR: u64 = 0x510;

pub const PORT_FW_CFG_DATA: u64 = 0x511;

pub const PORT_FW_CFG_DMA_HI: u64 = 0x514;

pub const PORT_FW_CFG_DMA_LO: u64 = 0x518;

/// What the device calls itself.
pub const FW_CFG_SIGNATURE_VALUE: [u8; 4] = [0x51, 0x45, 0x4d, 0x55];

/// What it offers: the plain interface, and copying into memory.
pub const FW_CFG_FEATURE: [u8; 4] = [3, 0, 0, 0];

/// Name of the device in ACPI.
pub const FW_CFG_ACPI_ID: &'static str = "QEMU0002";

/// Size of the table of timers.
pub const HPET_FW_CONFIG_SIZE: usize = 121;

/// Size of the description of a copy.
pub const DMA_ACCESS_SIZE: usize = 16;

/// The firmware configuration device.
pub struct FwCfg {
    selector: u16,
    data_offset: u32,
    dma_address: u64,
    items: Vec<FwCfgItem>,
    known_items: Vec<FwCfgContent>,
    arch_known_items: BTreeMap<u16, FwCfgContent>,
    linuxboot_option_rom_enabled: bool,
    patch_linux_setup_header: bool,
}

/// What the device holds besides its data.
pub struct FwCfgRegisters {
    pub selector: u16,
    pub data_offset: u32,
    pub dma_address: u64,
}

/// A read that is served from a file.
#[derive(Clone, Copy, Debug, PartialEq, Eq, Structural)]
pub struct FileRead {
    pub file: u64,
    pub at: u64,
}

/// What to do for a copy.
pub enum DmaStep {
    /// Put bytes into memory.
    Copy { bytes: Vec<u8>, address: u64 },
    /// Put part of a file into memory.
    CopyFile { file: u64, at: u64, len: u32, address: u64 },
    /// Nothing; report whether it went wrong.
    Finished { error: bool },
}

/// What to do for a copy: memory that is about to be used, then a step.
pub struct DmaBegin {
    pub address: u64,
    pub length: u32,
    pub step: DmaStep,
}

/// Contents of a new device.
pub open spec fn initial_known() -> Seq<ContentView> {
    Seq::new(
        32,
        |i: int|
            if i == FW_CFG_SIGNATURE {
                ContentView::Data(seq![0x51u8, 0x45, 0x4d, 0x55])
            } else if i == FW_CFG_ID {
                ContentView::Data(seq![3u8, 0, 0, 0])
            } else if i == FW_CFG_UUID || i == FW_CFG_NUMA {
                ContentView::Data(Seq::new(16, |k: int| 0u8))
            } else if i == FW_CFG_NOGRAPHIC || i == FW_CFG_NB_CPUS || i == FW_CFG_MAX_CPUS {
                ContentView::Data(crate::bytes::u16_le(1))
            } else if i == FW_CFG_BOOT_DEVICE || i == FW_CFG_BOOT_MENU {
                ContentView::Data(crate::bytes::u16_le(0))
            } else if i == FW_CFG_KERNEL_ENTRY {
                ContentView::Word(0)
            } else if i == FW_CFG_FILE_DIR {
                ContentView::Data(crate::devices::fw_cfg::state::file_dir(Seq::empty()))
            } else {
                ContentView::Data(Seq::empty())
            },
    )
}

/// Contents that are specific to the architecture: no tables, timer interrupts
/// are rerouted, and no table of timers.
pub open spec fn initial_arch() -> Map<u16, ContentView> {
    Map::<u16, ContentView>::empty().insert(
        FW_CFG_ACPI_TABLES,
        ContentView::Data(Seq::empty()),
    ).insert(FW_CFG_IRQ0_OVERRIDE, ContentView::Data(crate::bytes::u32_le(1))).insert(
        FW_CFG_HPET,
        ContentView::Data(
            Seq::new(
                121,
                |i: int|
                    if i == 0 {
                        0xffu8
                    } else {
                        0u8
                    },
            ),
        ),
    )
}

/// The error of a result, if any.
pub open spec fn error_of(r: Result<(), FwCfgError>) -> Option<FwCfgError> {
    match r {
        Ok(_) => None,
        Err(e) => Some(e),
    }
}

/// Bytes from an offset on, at most `len`.
pub open spec fn chunk(b: Seq<u8>, offset: int, len: int) -> Seq<u8> {
    if offset >= b.len() {
        Seq::empty()
    } else if offset + len <= b.len() {
        b.subrange(offset, offset + len)
    } else {
        b.subrange(offset, b.len() as int)
    }
}

/// Number of bytes from an offset on, at most `len`.
pub open spec fn chunk_len(size: int, offset: int, len: int) -> int {
    if offset >= size {
        0
    } else if offset + len <= size {
        len
    } else {
        size - offset
    }
}

/// An address with its upper half replaced.
fn replace_high(address: u64, high: u32) -> (r: u64)
    ensures
        r == high * 0x1_0000_0000 + address as int % 0x1_0000_0000,
{
    high as u64 * 0x1_0000_0000 + address % 0x1_0000_0000
}

/// An address with its lower half replaced.
fn replace_low(address: u64, low: u32) -> (r: u64)
    ensures
        r == address as int / 0x1_0000_0000 * 0x1_0000_0000 + low,
{
    address / 0x1_0000_0000 * 0x1_0000_0000 + low as u64
}

impl FwCfg {
    /// The files.
    pub closed spec fn items(&self) -> Seq<ItemView> {
        self.items@.map_values(|i: FwCfgItem| i@)
    }

    /// What is behind the selectors with a fixed meaning.
    pub closed spec fn known(&self) -> Seq<ContentView> {
        self.known_items@.map_values(|c: FwCfgContent| c@)
    }

    /// What is behind the selectors of the architecture.
    pub closed spec fn arch(&self) -> Map<u16, ContentView> {
        self.arch_known_items@.map_values(|c: FwCfgContent| c@)
    }

    /// The registers.
    pub closed spec fn registers(&self) -> FwCfgRegisters {
        FwCfgRegisters {
            selector: self.selector,
            data_offset: self.data_offset,
            dma_address: self.dma_address,
        }
    }

    /// Whether a kernel comes with an option ROM, and whether its boot
    /// parameters are filled in.
    pub closed spec fn options(&self) -> (bool, bool) {
        (self.linuxboot_option_rom_enabled, self.patch_linux_setup_header)
    }

    /// What the device holds, after an error or none.
    pub open spec fn state(&self, error: Option<FwCfgError>) -> FwCfgState {
        FwCfgState { items: self.items(), known: self.known(), error }
    }

    /// Files are sorted and can be counted, and the directory lists them.
    pub closed spec fn wf(&self) -> bool {
        &&& self.items().len() <= MAX_FILES
        &&& crate::devices::fw_cfg::state::sorted(self.items())
        &&& items_ok(self.items())
        &&& self.known().len() == 32
        &&& contents_ok(self.known())
        &&& self.known()[FW_CFG_FILE_DIR as int] == ContentView::Data(
            crate::devices::fw_cfg::state::file_dir(self.items()),
        )
        &&& arch_ok(self.arch())
    }

    /// Nothing but the files and what is behind the fixed selectors differs.
    pub open spec fn same_rest(&self, other: &Self) -> bool {
        &&& self.registers() == other.registers()
        &&& self.arch() == other.arch()
        &&& self.options() == other.options()
    }

    /// What is behind a selector.
    pub open spec fn content_at(&self, selector: u16) -> Option<ContentView> {
        if selector < 0x20 {
            Some(self.known()[selector as int])
        } else if self.arch().contains_key(selector) {
            Some(self.arch()[selector])
        } else if selector - 0x20 < self.items().len() {
            Some(self.items()[selector - 0x20].content)
        } else {
            None
        }
    }

    /// A device that fills in boot parameters and offers the option ROM.
    pub fn new() -> (r: Self)
        ensures
            r.wf(),
            r.items() == Seq::<ItemView>::empty(),
            r.known() == initial_known(),
            r.arch() == initial_arch(),
            r.registers() == (FwCfgRegisters { selector: 0, data_offset: 0, dma_address: 0 }),
            r.options() == (true, true),
    {
        Self::new_with_options(true, true)
    }

    /// A device.
    pub fn new_with_options(
        linuxboot_option_rom_enabled: bool,
        patch_linux_setup_header: bool,
    ) -> (r: Self)
        ensures
            r.wf(),
            r.items() == Seq::<ItemView>::empty(),
            r.known() == initial_known(),
            r.arch() == initial_arch(),
            r.registers() == (FwCfgRegisters { selector: 0, data_offset: 0, dma_address: 0 }),
            r.options() == (linuxboot_option_rom_enabled, patch_linux_setup_header),
    {
        let known_items: Vec<FwCfgContent> = make_initial_known();
        let mut arch_known_items: BTreeMap<u16, FwCfgContent> = BTreeMap::new();
        let mut hpet_config: Vec<u8> = vec![0xff];
        push_zeros(&mut hpet_config, HPET_FW_CONFIG_SIZE - 1);
        let mut irq0: Vec<u8> = Vec::new();
        push_u32_le(&mut irq0, 1);
        let none: Vec<u8> = Vec::new();
        assert(none@ =~= Seq::empty());
        assert(irq0@ =~= crate::bytes::u32_le(1));
        assert(hpet_config@ =~= Seq::new(
            121,
            |i: int|
                if i == 0 {
                    0xffu8
                } else {
                    0u8
                },
        ));
        arch_known_items.insert(FW_CFG_ACPI_TABLES, FwCfgContent::Bytes(none));
        arch_known_items.insert(FW_CFG_IRQ0_OVERRIDE, FwCfgContent::Bytes(irq0));
        arch_known_items.insert(FW_CFG_HPET, FwCfgContent::Bytes(hpet_config));
        let r: FwCfg = FwCfg {
            selector: 0,
            data_offset: 0,
            dma_address: 0,
            items: Vec::new(),
            known_items,
            arch_known_items,
            linuxboot_option_rom_enabled,
            patch_linux_setup_header,
        };
        assert(r.items() =~= Seq::<ItemView>::empty());
        assert(r.arch() =~= initial_arch());
        r
    }

    /// Puts something behind a selector with a fixed meaning other than the
    /// directory.
    pub(crate) fn set_known(&mut self, selector: u16, content: FwCfgContent)
        requires
            old(self).wf(),
            selector < 0x20,
            selector != FW_CFG_FILE_DIR,
            content@.ok(),
        ensures
            final(self).wf(),
            final(self).state(None) == old(self).state(None).set(selector, content@),
            final(self).same_rest(old(self)),
    {
        self.known_items.set(selector as usize, content);
        assert(self.known() =~= old(self).known().update(selector as int, content@));
        assert(self.items() == old(self).items());
    }

    /// Updates the boot parameters that firmware gets, if there are any.
    pub(crate) fn update_setup(&mut self, update: SetupUpdate)
        requires
            old(self).wf(),
        ensures
            final(self).wf(),
            final(self).state(None) == old(self).state(None).update_setup(update),
            final(self).same_rest(old(self)),
    {
        assert(self.known()[FW_CFG_SETUP_DATA as int]
            == self.known_items@[FW_CFG_SETUP_DATA as int]@);
        let updated: Option<Vec<u8>> = match &self.known_items[FW_CFG_SETUP_DATA as usize] {
            FwCfgContent::Bytes(b) => Some(update_setup_data(b.as_slice(), update)),
            FwCfgContent::Slice(b) => Some(update_setup_data(b, update)),
            _ => None,
        };
        match updated {
            Some(b) => self.set_known(FW_CFG_SETUP_DATA, FwCfgContent::Bytes(b)),
            None => {},
        }
    }

    /// Whether a kernel comes with an option ROM.
    pub fn linuxboot_option_rom_enabled(&self) -> (r: bool)
        ensures
            r == self.options().0,
    {
        self.linuxboot_option_rom_enabled
    }

    /// Whether boot parameters are filled in.
    pub fn patch_linux_setup_header(&self) -> (r: bool)
        ensures
            r == self.options().1,
    {
        self.patch_linux_setup_header
    }

    /// Whether there is a file of a name.
    fn has_item(&self, name: &str) -> (r: bool)
        ensures
            r == crate::devices::fw_cfg::state::has_file(self.items(), name@),
    {
        let mut i: usize = 0;
        while i < self.items.len()
            invariant
                i <= self.items@.len(),
                forall|k: int| 0 <= k < i ==> (#[trigger] self.items()[k]).name != name@,
            decreases self.items@.len() - i,
        {
            assert(self.items()[i as int] == self.items@[i as int]@);
            if same_name(self.items[i].name.as_str(), name) {
                return true;
            }
            i = i + 1;
        }
        false
    }

    /// Makes the directory anew.
    fn rebuild_file_dir(&mut self)
        requires
            old(self).items().len() <= MAX_FILES,
            old(self).known().len() == 32,
            items_ok(old(self).items()),
        ensures
            final(self).items() == old(self).items(),
            final(self).known() == old(self).known().update(
                FW_CFG_FILE_DIR as int,
                ContentView::Data(crate::devices::fw_cfg::state::file_dir(old(self).items())),
            ),
            final(self).same_rest(old(self)),
    {
        let ghost items = self.items();
        assert(items.len() == self.items@.len());
        let mut file_buf: Vec<u8> = Vec::new();
        push_u32_be(&mut file_buf, self.items.len() as u32);
        let ghost count = crate::bytes::u32_be(items.len() as u32);
        assert(file_buf@ =~= count + crate::devices::fw_cfg::state::dir_entries(items, 0));
        let mut i: usize = 0;
        while i < self.items.len()
            invariant
                i <= self.items@.len(),
                *self == *old(self),
                items == self.items(),
                items.len() == self.items@.len(),
                items.len() <= MAX_FILES,
                items_ok(items),
                file_buf@ == count + crate::devices::fw_cfg::state::dir_entries(items, i as nat),
            decreases self.items@.len() - i,
        {
            assert(items[i as int] == self.items@[i as int]@);
            let name: [u8; 56] = create_file_name(self.items[i].name.as_str());
            let size: u32 = match self.items[i].content.size() {
                Ok(size) => size,
                Err(_) => 0,
            };
            push_u32_be(&mut file_buf, size);
            push_u16_be(&mut file_buf, FW_CFG_FILE_FIRST + i as u16);
            push_zeros(&mut file_buf, 2);
            push_bytes(&mut file_buf, name.as_slice());
            i = i + 1;
            assert(file_buf@ =~= count + crate::devices::fw_cfg::state::dir_entries(
                items,
                i as nat,
            ));
        }
        self.known_items.set(FW_CFG_FILE_DIR as usize, FwCfgContent::Bytes(file_buf));
        assert(self.known() =~= old(self).known().update(
            FW_CFG_FILE_DIR as int,
            ContentView::Data(crate::devices::fw_cfg::state::file_dir(items)),
        ));
    }

    /// Tells whether more files can be added.
    pub fn has_room(&self, files: usize) -> (r: bool)
        requires
            self.wf(),
        ensures
            r == (self.items().len() + files <= MAX_FILES),
    {
        files <= MAX_FILES && self.items.len() <= MAX_FILES - files
    }

    /// Adds a file in its place.
    pub fn add_item(&mut self, item: FwCfgItem) -> (r: Result<(), FwCfgError>)
        requires
            old(self).wf(),
            old(self).items().len() < MAX_FILES,
            item@.content.ok(),
        ensures
            final(self).wf(),
            final(self).state(error_of(r)) == old(self).state(None).add(item@),
            final(self).same_rest(old(self)),
            final(self).items().len() <= old(self).items().len() + 1,
    {
        match item.content.size() {
            Ok(_) => {},
            Err(e) => {
                return Err(e);
            },
        }
        if self.has_item(item.name.as_str()) {
            return Err(FwCfgError::AlreadyExists);
        }
        let ghost items = self.items();
        let mut index: usize = 0;
        while index < self.items.len() && is_name_before(
            self.items[index].name.as_str(),
            item.name.as_str(),
        )
            invariant
                index <= self.items@.len(),
                *self == *old(self),
                items == self.items(),
                crate::devices::fw_cfg::state::place(items, item.name@, 0)
                    == crate::devices::fw_cfg::state::place(items, item.name@, index as int),
            decreases self.items@.len() - index,
        {
            assert(items[index as int] == self.items@[index as int]@);
            index = index + 1;
        }
        proof {
            if index < self.items@.len() {
                assert(items[index as int] == self.items@[index as int]@);
            }
            crate::devices::fw_cfg::state::adding_keeps_order(items, item@);
            crate::devices::fw_cfg::state::place_is_in_order(items, item@.name);
        }
        let ghost added = item@;
        self.items.insert(index, item);
        assert(self.items() =~= items.insert(index as int, added));
        assert(items_ok(self.items())) by {
            assert forall|i: int| 0 <= i < self.items().len() implies item_ok(
                #[trigger] self.items()[i],
            ) by {
                if i < index {
                    assert(self.items()[i] == items[i]);
                } else if i > index {
                    assert(self.items()[i] == items[i - 1]);
                }
            }
        }
        self.rebuild_file_dir();
        Ok(())
    }

    /// Adds a file unless there is one of its name.
    pub(crate) fn add_item_if_missing(&mut self, item: FwCfgItem) -> (r: Result<(), FwCfgError>)
        requires
            old(self).wf(),
            old(self).items().len() < MAX_FILES,
            item@.content.ok(),
        ensures
            final(self).wf(),
            final(self).state(error_of(r)) == old(self).state(None).add_if_missing(item@),
            final(self).same_rest(old(self)),
            final(self).items().len() <= old(self).items().len() + 1,
    {
        if self.has_item(item.name.as_str()) {
            return Ok(());
        }
        self.add_item(item)
    }
}

impl FwCfg {
    /// What is behind a selector.
    fn content_of(&self, selector: u16) -> (r: Option<&FwCfgContent>)
        requires
            self.wf(),
        ensures
            match r {
                Some(c) => self.content_at(selector) == Some(c@) && c@.ok(),
                None => self.content_at(selector) is None,
            },
    {
        if selector < 0x20 {
            assert(self.known()[selector as int] == self.known_items@[selector as int]@);
            return Some(&self.known_items[selector as usize]);
        }
        match self.arch_known_items.get(&selector) {
            Some(c) => {
                assert(self.arch().contains_key(selector));
                return Some(c);
            },
            None => {
                assert(!self.arch().contains_key(selector));
            },
        }
        let index: usize = (selector - FW_CFG_FILE_FIRST) as usize;
        assert(self.items().len() == self.items@.len());
        if index < self.items.len() {
            assert(self.items()[index as int] == self.items@[index as int]@);
            Some(&self.items[index].content)
        } else {
            None
        }
    }

    /// Name of a file, or what a selector with a fixed meaning is for.
    pub fn selector_name(&self, selector: u16) -> (r: &str)
        requires
            self.wf(),
        ensures
            r@ == if 0x20 <= selector && selector - 0x20 < self.items().len() {
                self.items()[selector - 0x20].name
            } else {
                fixed_name(selector)@
            },
    {
        let index: usize = selector.wrapping_sub(FW_CFG_FILE_FIRST) as usize;
        assert(self.items().len() == self.items@.len());
        if index < self.items.len() {
            assert(self.items()[index as int] == self.items@[index as int]@);
            self.items[index].name.as_str()
        } else {
            make_fixed_name(selector)
        }
    }

    /// Whether a read stays within what is behind the selector. Data that is
    /// shorter than the read is skipped as a whole, as far as can be counted.
    pub open spec fn reads_inside(&self, offset: int, len: int) -> bool {
        let at = self.registers().data_offset;
        offset == 1 ==> match self.content_at(self.registers().selector) {
            Some(ContentView::Data(b)) => {
                &&& at + len <= u32::MAX
                &&& b.len() >= len ==> at + len <= b.len()
            },
            Some(ContentView::Word(_)) => at + len <= 4,
            _ => true,
        }
    }

    /// Tells whether a read stays within what is behind the selector.
    pub fn can_read(&self, offset: u64, len: usize) -> (r: bool)
        requires
            self.wf(),
        ensures
            r == self.reads_inside(offset as int, len as int),
    {
        if offset != 1 {
            return true;
        }
        let at: u64 = self.data_offset as u64;
        let n: u64 = len as u64;
        let counts: bool = n <= 0xffff_ffff && at + n <= 0xffff_ffff;
        match self.content_of(self.selector) {
            Some(FwCfgContent::Bytes(b)) => counts && ((b.len() as u64) < n || at + n
                <= b.len() as u64),
            Some(FwCfgContent::Slice(b)) => counts && ((b.len() as u64) < n || at + n
                <= b.len() as u64),
            Some(FwCfgContent::U32(_)) => counts && at + n <= 4,
            _ => true,
        }
    }

    /// The registers after a read of what is behind the selector.
    pub open spec fn after_data_read(&self, len: int) -> FwCfgRegisters {
        FwCfgRegisters {
            data_offset: (self.registers().data_offset + len) as u32,
            ..self.registers()
        }
    }

    /// What a read at an offset from the first port leads to: the registers, what
    /// is in the buffer, and what to read of a file.
    pub open spec fn serves_read(
        &self,
        offset: int,
        before: Seq<u8>,
        after: FwCfgRegisters,
        data: Seq<u8>,
        r: Option<FileRead>,
    ) -> bool {
        let len = before.len();
        let at = self.registers().data_offset as int;
        let dma = self.registers().dma_address;
        if offset == 1 {
            match self.content_at(self.registers().selector) {
                Some(ContentView::File { file, offset: start, .. }) => {
                    &&& r == Some(FileRead { file, at: (start + at) as u64 })
                    &&& data == before
                    &&& after == self.registers()
                },
                Some(c) => {
                    &&& r is None
                    &&& data == if c.size() >= len {
                        c.bytes().subrange(at, at + len)
                    } else {
                        before
                    }
                    &&& after == self.after_data_read(len as int)
                },
                None => {
                    &&& r is None
                    &&& data == before
                    &&& after == self.registers()
                },
            }
        } else {
            &&& r is None
            &&& after == self.registers()
            &&& data == if offset == 4 && len == 4 {
                crate::bytes::u32_be((dma / 0x1_0000_0000) as u32)
            } else if offset == 8 && len == 4 {
                crate::bytes::u32_be((dma % 0x1_0000_0000) as u32)
            } else {
                before
            }
        }
    }

    /// A read at an offset from the first port. Data is read from where the last
    /// read ended. Where it is in a file, the file has to be read, and
    /// [`FwCfg::file_was_read`] told whether that worked.
    pub fn read(&mut self, offset: u64, data: &mut [u8]) -> (r: Option<FileRead>)
        requires
            old(self).wf(),
            old(self).reads_inside(offset as int, old(data)@.len() as int),
        ensures
            final(self).wf(),
            final(self).state(None) == old(self).state(None),
            final(self).arch() == old(self).arch(),
            final(self).options() == old(self).options(),
            old(self).serves_read(
                offset as int,
                old(data)@,
                final(self).registers(),
                final(data)@,
                r,
            ),
    {
        let len: usize = data.len();
        if offset == PORT_FW_CFG_DATA - PORT_FW_CFG_BASE {
            let at: usize = self.data_offset as usize;
            let found: Option<FileRead> = match self.content_of(self.selector) {
                Some(FwCfgContent::File { file, offset: start, .. }) => {
                    return Some(FileRead { file: *file, at: *start + self.data_offset as u64 });
                },
                Some(FwCfgContent::Bytes(b)) => {
                    if b.len() >= len {
                        copy_slice(data, b.as_slice(), at);
                    }
                    None
                },
                Some(FwCfgContent::Slice(b)) => {
                    if b.len() >= len {
                        copy_slice(data, b, at);
                    }
                    None
                },
                Some(FwCfgContent::U32(n)) => {
                    let mut b: Vec<u8> = Vec::new();
                    push_u32_le(&mut b, *n);
                    assert(b@ =~= crate::bytes::u32_le(*n));
                    copy_slice(data, b.as_slice(), at);
                    None
                },
                None => {
                    return None;
                },
            };
            self.data_offset = self.data_offset + len as u32;
            found
        } else if offset == PORT_FW_CFG_DMA_HI - PORT_FW_CFG_BASE && len == 4 {
            fill_u32_be(data, (self.dma_address / 0x1_0000_0000) as u32);
            None
        } else if offset == PORT_FW_CFG_DMA_LO - PORT_FW_CFG_BASE && len == 4 {
            fill_u32_be(data, (self.dma_address % 0x1_0000_0000) as u32);
            None
        } else {
            None
        }
    }

    /// Tells whether the place after a read of part of a file can be counted.
    pub fn can_advance(&self, len: u32) -> (r: bool)
        ensures
            r == (self.registers().data_offset + len <= u32::MAX),
    {
        len <= 0xffff_ffff - self.data_offset
    }

    /// Takes in that part of a file was read, or could not be.
    pub fn file_was_read(&mut self, len: u32, ok: bool)
        requires
            old(self).wf(),
            ok ==> old(self).registers().data_offset + len <= u32::MAX,
        ensures
            final(self).wf(),
            final(self).state(None) == old(self).state(None),
            final(self).arch() == old(self).arch(),
            final(self).options() == old(self).options(),
            final(self).registers() == if ok {
                old(self).after_data_read(len as int)
            } else {
                old(self).registers()
            },
    {
        if ok {
            self.data_offset = self.data_offset + len;
        }
    }

    fn set_registers(&mut self, selector: u16, data_offset: u32, dma_address: u64)
        requires
            old(self).wf(),
        ensures
            final(self).wf(),
            final(self).state(None) == old(self).state(None),
            final(self).arch() == old(self).arch(),
            final(self).options() == old(self).options(),
            final(self).registers() == (FwCfgRegisters { selector, data_offset, dma_address }),
    {
        self.selector = selector;
        self.data_offset = data_offset;
        self.dma_address = dma_address;
    }

    /// What a write at an offset from the first port leads to: the registers, and
    /// the description of a copy that is to be made.
    pub open spec fn takes_write(
        &self,
        offset: int,
        data: Seq<u8>,
        after: FwCfgRegisters,
        r: Option<u64>,
    ) -> bool {
        let dma = self.registers().dma_address as int;
        if offset == 0 && data.len() == 2 {
            &&& r is None
            &&& after == (FwCfgRegisters {
                selector: crate::bytes::le16(data, 0),
                data_offset: 0,
                ..self.registers()
            })
        } else if offset == 4 && data.len() == 4 {
            &&& r is None
            &&& after == (FwCfgRegisters {
                dma_address: (crate::bytes::be32(data, 0) * 0x1_0000_0000 + dma
                    % 0x1_0000_0000) as u64,
                ..self.registers()
            })
        } else if offset == 8 && data.len() == 4 {
            &&& r == Some(after.dma_address)
            &&& after == (FwCfgRegisters {
                dma_address: (dma / 0x1_0000_0000 * 0x1_0000_0000 + crate::bytes::be32(
                    data,
                    0,
                )) as u64,
                ..self.registers()
            })
        } else {
            &&& r is None
            &&& after == self.registers()
        }
    }

    /// A write at an offset from the first port. Returns the address of the
    /// description of a copy that is to be made, if any.
    pub fn write(&mut self, offset: u64, data: &[u8]) -> (r: Option<u64>)
        requires
            old(self).wf(),
        ensures
            final(self).wf(),
            final(self).state(None) == old(self).state(None),
            final(self).arch() == old(self).arch(),
            final(self).options() == old(self).options(),
            old(self).takes_write(offset as int, data@, final(self).registers(), r),
    {
        let size: usize = data.len();
        if offset == PORT_FW_CFG_SELECTOR - PORT_FW_CFG_BASE && size == 2 {
            self.set_registers(read_u16_le(data, 0), 0, self.dma_address);
            None
        } else if offset == PORT_FW_CFG_DMA_HI - PORT_FW_CFG_BASE && size == 4 {
            let val: u32 = read_u32_be(data, 0);
            let address: u64 = replace_high(self.dma_address, val);
            self.set_registers(self.selector, self.data_offset, address);
            None
        } else if offset == PORT_FW_CFG_DMA_LO - PORT_FW_CFG_BASE && size == 4 {
            let val: u32 = read_u32_be(data, 0);
            let address: u64 = replace_low(self.dma_address, val);
            self.set_registers(self.selector, self.data_offset, address);
            Some(address)
        } else {
            None
        }
    }

    /// The registers after a description of a copy has selected something.
    pub open spec fn selected(&self, control: u32) -> FwCfgRegisters {
        if control / 8 % 2 == 1 {
            FwCfgRegisters {
                selector: (control / 0x1_0000) as u16,
                data_offset: 0,
                ..self.registers()
            }
        } else {
            self.registers()
        }
    }

    /// Whether a description skips no further than can be counted.
    pub open spec fn skips_inside(&self, descriptor: Seq<u8>) -> bool {
        let control = crate::bytes::be32(descriptor, 0);
        let len = crate::bytes::be32(descriptor, 4);
        control / 2 % 2 == 0 && control / 16 % 2 == 0 && control / 4 % 2 == 1 ==> self.selected(
            control,
        ).data_offset + len <= u32::MAX
    }

    /// Tells whether a description skips no further than can be counted.
    pub fn can_begin_dma(&self, descriptor: &[u8]) -> (r: bool)
        requires
            self.wf(),
            descriptor@.len() == DMA_ACCESS_SIZE,
        ensures
            r == self.skips_inside(descriptor@),
    {
        let control: u32 = read_u32_be(descriptor, 0);
        let len: u32 = read_u32_be(descriptor, 4);
        let at: u32 = if control / 8 % 2 == 1 {
            0
        } else {
            self.data_offset
        };
        !(control / 2 % 2 == 0 && control / 16 % 2 == 0 && control / 4 % 2 == 1) || at as u64
            + len as u64 <= 0xffff_ffff
    }

    /// What a description of a copy leads to: the registers, and what to do.
    pub open spec fn dma_begins(&self, descriptor: Seq<u8>, after: FwCfgRegisters, step: DmaStep) -> bool {
        let control = crate::bytes::be32(descriptor, 0);
        let len = crate::bytes::be32(descriptor, 4);
        let address = crate::bytes::be64(descriptor, 8);
        let sel = self.selected(control);
        let at = sel.data_offset as int;
        if control / 2 % 2 == 1 {
            &&& after == sel
            &&& match self.content_at(sel.selector) {
                Some(c) => if c.size() > u32::MAX {
                    step == (DmaStep::Finished { error: true })
                } else {
                    match c {
                        ContentView::File { file, offset: start, .. } => step == (
                        DmaStep::CopyFile {
                            file,
                            at: (start + at) as u64,
                            len: chunk_len(c.size(), at, len as int) as u32,
                            address,
                        }),
                        _ => {
                            &&& step is Copy
                            &&& step->bytes@ == chunk(c.bytes(), at, len as int)
                            &&& step->Copy_address == address
                        },
                    }
                },
                None => step == (DmaStep::Finished { error: true }),
            }
        } else if control / 16 % 2 == 1 {
            after == sel && step == (DmaStep::Finished { error: true })
        } else if control / 4 % 2 == 1 {
            &&& after == (FwCfgRegisters { data_offset: (at + len) as u32, ..sel })
            &&& step == (DmaStep::Finished { error: false })
        } else {
            after == sel && step == (DmaStep::Finished { error: true })
        }
    }

    /// Takes in the description of a copy: select, then read, write or skip.
    /// Writing is not offered. The memory that the description names is about
    /// to be used.
    pub fn begin_dma(&mut self, descriptor: &[u8]) -> (r: DmaBegin)
        requires
            old(self).wf(),
            descriptor@.len() == DMA_ACCESS_SIZE,
            old(self).skips_inside(descriptor@),
        ensures
            final(self).wf(),
            final(self).state(None) == old(self).state(None),
            final(self).arch() == old(self).arch(),
            final(self).options() == old(self).options(),
            r.address == crate::bytes::be64(descriptor@, 8),
            r.length == crate::bytes::be32(descriptor@, 4),
            old(self).dma_begins(descriptor@, final(self).registers(), r.step),
    {
        let control: u32 = read_u32_be(descriptor, 0);
        let length: u32 = read_u32_be(descriptor, 4);
        let address: u64 = read_u64_be(descriptor, 8);
        if control / 8 % 2 == 1 {
            self.selector = (control / 0x1_0000) as u16;
            self.data_offset = 0;
        }
        let step: DmaStep = if control / 2 % 2 == 1 {
            self.dma_read(length, address)
        } else if control / 16 % 2 == 1 {
            DmaStep::Finished { error: true }
        } else if control / 4 % 2 == 1 {
            self.data_offset = self.data_offset + length;
            DmaStep::Finished { error: false }
        } else {
            DmaStep::Finished { error: true }
        };
        DmaBegin { address, length, step }
    }

    fn dma_read(&self, len: u32, address: u64) -> (step: DmaStep)
        requires
            self.wf(),
        ensures
            ({
                let at = self.registers().data_offset as int;
                match self.content_at(self.registers().selector) {
                    Some(c) => if c.size() > u32::MAX {
                        step == (DmaStep::Finished { error: true })
                    } else {
                        match c {
                            ContentView::File { file, offset: start, .. } => step == (
                            DmaStep::CopyFile {
                                file,
                                at: (start + at) as u64,
                                len: chunk_len(c.size(), at, len as int) as u32,
                                address,
                            }),
                            _ => {
                                &&& step is Copy
                                &&& step->bytes@ == chunk(c.bytes(), at, len as int)
                                &&& step->Copy_address == address
                            },
                        }
                    },
                    None => step == (DmaStep::Finished { error: true }),
                }
            }),
    {
        let content: &FwCfgContent = match self.content_of(self.selector) {
            Some(content) => content,
            None => {
                return DmaStep::Finished { error: true };
            },
        };
        let size: u32 = match content.size() {
            Ok(size) => size,
            Err(_) => {
                return DmaStep::Finished { error: true };
            },
        };
        let at: u32 = self.data_offset;
        let rest: u32 = if at >= size {
            0
        } else {
            size - at
        };
        let op_size: u32 = if rest < len {
            rest
        } else {
            len
        };
        match content {
            FwCfgContent::File { file, offset: start, .. } => DmaStep::CopyFile {
                file: *file,
                at: *start + at as u64,
                len: op_size,
                address,
            },
            FwCfgContent::Bytes(b) => DmaStep::Copy {
                bytes: take_chunk(b.as_slice(), at as usize, op_size as usize),
                address,
            },
            FwCfgContent::Slice(b) => DmaStep::Copy {
                bytes: take_chunk(b, at as usize, op_size as usize),
                address,
            },
            FwCfgContent::U32(n) => {
                let mut b: Vec<u8> = Vec::new();
                push_u32_le(&mut b, *n);
                assert(b@ =~= crate::bytes::u32_le(*n));
                DmaStep::Copy {
                    bytes: take_chunk(b.as_slice(), at as usize, op_size as usize),
                    address,
                }
            },
        }
    }

    /// Takes in how many bytes were put into memory, or that it failed. Returns
    /// whether to report an error.
    pub fn end_dma(&mut self, copied: Option<u32>) -> (error: bool)
        requires
            old(self).wf(),
            copied is Some ==> old(self).registers().data_offset + copied->0 <= u32::MAX,
        ensures
            final(self).wf(),
            final(self).state(None) == old(self).state(None),
            final(self).arch() == old(self).arch(),
            final(self).options() == old(self).options(),
            error == copied is None,
            final(self).registers() == match copied {
                Some(n) => old(self).after_data_read(n as int),
                None => old(self).registers(),
            },
    {
        match copied {
            Some(n) => {
                self.data_offset = self.data_offset + n;
                false
            },
            None => true,
        }
    }

    /// What is written over the start of a description once the copy is over.
    pub fn dma_response(error: bool) -> (r: Vec<u8>)
        ensures
            r@ == crate::bytes::u32_be(
                if error {
                    1
                } else {
                    0
                },
            ),
    {
        let mut r: Vec<u8> = Vec::new();
        push_u32_be(
            &mut r,
            if error {
                1
            } else {
                0
            },
        );
        assert(r@ =~= crate::bytes::u32_be(
            if error {
                1
            } else {
                0
            },
        ));
        r
    }
}

/// Copies part of a slice.
fn copy_slice(data: &mut [u8], b: &[u8], at: usize)
    requires
        at + old(data)@.len() <= b@.len(),
    ensures
        final(data)@ == b@.subrange(at as int, at + old(data)@.len()),
{
    let n: usize = data.len();
    let total: usize = b.len();
    let mut i: usize = 0;
    while i < n
        invariant
            i <= n,
            n == data@.len(),
            n == old(data)@.len(),
            total == b@.len(),
            at + n <= total,
            forall|k: int| 0 <= k < i ==> data@[k] == b@[at + k],
        decreases n - i,
    {
        data[i] = b[at + i];
        i = i + 1;
    }
    assert(data@ =~= b@.subrange(at as int, at + n));
}

fn fill_u32_be(data: &mut [u8], x: u32)
    requires
        old(data)@.len() == 4,
    ensures
        final(data)@ == crate::bytes::u32_be(x),
{
    let mut b: Vec<u8> = Vec::new();
    push_u32_be(&mut b, x);
    copy_slice(data, b.as_slice(), 0);
    assert(data@ =~= crate::bytes::u32_be(x));
}

fn take_chunk(b: &[u8], at: usize, len: usize) -> (r: Vec<u8>)
    requires
        len == 0 || at + len <= b@.len(),
    ensures
        r@ == if len == 0 {
            Seq::empty()
        } else {
            b@.subrange(at as int, at + len)
        },
{
    let mut r: Vec<u8> = Vec::new();
    let total: usize = b.len();
    let mut i: usize = 0;
    while i < len
        invariant
            i <= len,
            total == b@.len(),
            len == 0 || at + len <= total,
            r@.len() == i,
            forall|k: int| 0 <= k < i ==> r@[k] == b@[at + k],
        decreases len - i,
    {
        r.push(b[at + i]);
        i = i + 1;
    }
    assert(r@ =~= if len == 0 {
        Seq::empty()
    } else {
        b@.subrange(at as int, at + len)
    });
    r
}

/// What a selector with a fixed meaning is for.
pub open spec fn fixed_name(selector: u16) -> &'static str {
    if selector == FW_CFG_SIGNATURE {
        "signature"
    } else if selector == FW_CFG_ID {
        "id"
    } else if selector == FW_CFG_UUID {
        "uuid"
    } else if selector == FW_CFG_RAM_SIZE {
        "ram_size"
    } else if selector == FW_CFG_NOGRAPHIC {
        "nographic"
    } else if selector == FW_CFG_NB_CPUS {
        "nb_cpus"
    } else if selector == FW_CFG_KERNEL_ADDR {
        "kernel_addr"
    } else if selector == FW_CFG_KERNEL_SIZE {
        "kernel_size"
    } else if selector == FW_CFG_BOOT_DEVICE {
        "boot_device"
    } else if selector == FW_CFG_NUMA {
        "numa"
    } else if selector == FW_CFG_BOOT_MENU {
        "boot_menu"
    } else if selector == FW_CFG_MAX_CPUS {
        "max_cpus"
    } else if selector == FW_CFG_KERNEL_ENTRY {
        "kernel_entry"
    } else if selector == FW_CFG_INITRD_ADDR {
        "initrd_addr"
    } else if selector == FW_CFG_INITRD_SIZE {
        "initrd_size"
    } else if selector == FW_CFG_KERNEL_DATA {
        "kernel_data"
    } else if selector == FW_CFG_INITRD_DATA {
        "initrd_data"
    } else if selector == FW_CFG_CMDLINE_ADDR {
        "cmdline_addr"
    } else if selector == FW_CFG_CMDLINE_SIZE {
        "cmdline_size"
    } else if selector == FW_CFG_CMDLINE_DATA {
        "cmdline_data"
    } else if selector == FW_CFG_SETUP_ADDR {
        "setup_addr"
    } else if selector == FW_CFG_SETUP_SIZE {
        "setup_size"
    } else if selector == FW_CFG_SETUP_DATA {
        "setup_data"
    } else if selector == FW_CFG_FILE_DIR {
        "file_dir"
    } else if selector == FW_CFG_ACPI_TABLES {
        "acpi_tables"
    } else if selector == FW_CFG_IRQ0_OVERRIDE {
        "irq0_override"
    } else if selector == FW_CFG_HPET {
        "hpet"
    } else {
        "unknown"
    }
}

fn make_fixed_name(selector: u16) -> (r: &'static str)
    ensures
        r == fixed_name(selector),
{
    if selector == FW_CFG_SIGNATURE {
        "signature"
    } else if selector == FW_CFG_ID {
        "id"
    } else if selector == FW_CFG_UUID {
        "uuid"
    } else if selector == FW_CFG_RAM_SIZE {
        "ram_size"
    } else if selector == FW_CFG_NOGRAPHIC {
        "nographic"
    } else if selector == FW_CFG_NB_CPUS {
        "nb_cpus"
    } else if selector == FW_CFG_KERNEL_ADDR {
        "kernel_addr"
    } else if selector == FW_CFG_KERNEL_SIZE {
        "kernel_size"
    } else if selector == FW_CFG_BOOT_DEVICE {
        "boot_device"
    } else if selector == FW_CFG_NUMA {
        "numa"
    } else if selector == FW_CFG_BOOT_MENU {
        "boot_menu"
    } else if selector == FW_CFG_MAX_CPUS {
        "max_cpus"
    } else if selector == FW_CFG_KERNEL_ENTRY {
        "kernel_entry"
    } else if selector == FW_CFG_INITRD_ADDR {
        "initrd_addr"
    } else if selector == FW_CFG_INITRD_SIZE {
        "initrd_size"
    } else if selector == FW_CFG_KERNEL_DATA {
        "kernel_data"
    } else if selector == FW_CFG_INITRD_DATA {
        "initrd_data"
    } else if selector == FW_CFG_CMDLINE_ADDR {
        "cmdline_addr"
    } else if selector == FW_CFG_CMDLINE_SIZE {
        "cmdline_size"
    } else if selector == FW_CFG_CMDLINE_DATA {
        "cmdline_data"
    } else if selector == FW_CFG_SETUP_ADDR {
        "setup_addr"
    } else if selector == FW_CFG_SETUP_SIZE {
        "setup_size"
    } else if selector == FW_CFG_SETUP_DATA {
        "setup_data"
    } else if selector == FW_CFG_FILE_DIR {
        "file_dir"
    } else if selector == FW_CFG_ACPI_TABLES {
        "acpi_tables"
    } else if selector == FW_CFG_IRQ0_OVERRIDE {
        "irq0_override"
    } else if selector == FW_CFG_HPET {
        "hpet"
    } else {
        "unknown"
    }
}

/// Two reads in a row give what one read of both lengths gives.
pub proof fn reads_continue(b: Seq<u8>, at: int, first: int, second: int)
    requires
        0 <= at,
        0 <= first,
        0 <= second,
    ensures
        chunk(b, at, first).len() == chunk_len(b.len() as int, at, first),
        chunk(b, at, first) + chunk(b, at + chunk(b, at, first).len(), second) == chunk(
            b,
            at,
            first + second,
        ),
{
    assert(chunk(b, at, first) + chunk(b, at + chunk(b, at, first).len(), second) =~= chunk(
        b,
        at,
        first + second,
    ));
}

/// A file is behind the selector that the directory gives for it, and what is
/// read from there is the file.
pub proof fn files_are_behind_their_selectors(d: FwCfg, i: int)
    requires
        d.wf(),
        0 <= i < d.items().len(),
        i < 0x7fe0,
        forall|k: u16| d.arch().contains_key(k) ==> k >= 0x8000,
    ensures
        d.content_at((0x20 + i) as u16) == Some(d.items()[i].content),
        crate::devices::fw_cfg::state::file_dir(d.items()).subrange(
            4 + 64 * i,
            4 + 64 * i + 64,
        ) == crate::devices::fw_cfg::state::dir_entry(i, d.items()[i]),
{
    crate::devices::fw_cfg::state::directory_lists_every_file(d.items(), i);
}

/// The directory that firmware reads always lists the files, sorted and each
/// once.
pub proof fn directory_is_always_current(d: FwCfg)
    requires
        d.wf(),
    ensures
        d.content_at(FW_CFG_FILE_DIR) == Some(
            ContentView::Data(crate::devices::fw_cfg::state::file_dir(d.items())),
        ),
        crate::devices::fw_cfg::state::sorted(d.items()),
{
}

/// What every file satisfies.
pub open spec fn item_ok(item: ItemView) -> bool {
    item.content.ok() && item.content.size() <= u32::MAX
}

/// What all files satisfy.
pub open spec fn items_ok(items: Seq<ItemView>) -> bool {
    forall|i: int| 0 <= i < items.len() ==> item_ok(#[trigger] items[i])
}

/// What everything behind the fixed selectors satisfies.
pub open spec fn contents_ok(known: Seq<ContentView>) -> bool {
    forall|i: int| 0 <= i < known.len() ==> (#[trigger] known[i]).ok()
}

/// What everything behind the selectors of the architecture satisfies.
pub open spec fn arch_ok(arch: Map<u16, ContentView>) -> bool {
    forall|k: u16| #[trigger] arch.contains_key(k) ==> arch[k].ok()
}

fn same_name(a: &str, b: &str) -> (r: bool)
    ensures
        r == (a@ == b@),
{
    proof {
        crate::devices::fw_cfg::names::names_are_ordered(a@, b@);
    }
    !is_name_before(a, b) && !is_name_before(b, a)
}

fn make_initial_known() -> (r: Vec<FwCfgContent>)
    ensures
        r@.map_values(|c: FwCfgContent| c@) == initial_known(),
{
    let mut r: Vec<FwCfgContent> = Vec::new();
    let mut i: u16 = 0;
    while i < 0x20
        invariant
            i <= 0x20,
            r@.len() == i,
            forall|k: int| 0 <= k < i ==> (#[trigger] r@[k])@ == initial_known()[k],
        decreases 0x20 - i,
    {
        let mut b: Vec<u8> = Vec::new();
        if i == FW_CFG_SIGNATURE {
            push_bytes(&mut b, FW_CFG_SIGNATURE_VALUE.as_slice());
        } else if i == FW_CFG_ID {
            push_bytes(&mut b, FW_CFG_FEATURE.as_slice());
        } else if i == FW_CFG_UUID || i == FW_CFG_NUMA {
            push_zeros(&mut b, 16);
        } else if i == FW_CFG_NOGRAPHIC || i == FW_CFG_NB_CPUS || i == FW_CFG_MAX_CPUS {
            push_u16_le(&mut b, 1);
        } else if i == FW_CFG_BOOT_DEVICE || i == FW_CFG_BOOT_MENU {
            push_u16_le(&mut b, 0);
        } else if i == FW_CFG_FILE_DIR {
            push_u32_be(&mut b, 0);
            assert(b@ =~= crate::devices::fw_cfg::state::file_dir(Seq::empty()));
        }
        assert(i != FW_CFG_KERNEL_ENTRY ==> initial_known()[i as int] == ContentView::Data(b@)) by {
            assert(i != FW_CFG_KERNEL_ENTRY ==> initial_known()[i as int]->Data_0 =~= b@);
        }
        let c: FwCfgContent = if i == FW_CFG_KERNEL_ENTRY {
            FwCfgContent::U32(0)
        } else {
            FwCfgContent::Bytes(b)
        };
        r.push(c);
        i = i + 1;
    }
    assert(r@.map_values(|c: FwCfgContent| c@) =~= initial_known());
    r
}

/// Selecting starts over: the first read after it gets the beginning of what is
/// behind the selector, and the next one goes on where that ended.
pub proof fn selected_data_is_read_in_order(
    d: FwCfg,
    selected: FwCfg,
    read: FwCfg,
    selector: Seq<u8>,
    first: Seq<u8>,
    second: Seq<u8>,
    asked: (Seq<u8>, Seq<u8>),
    last: FwCfgRegisters,
    w: Option<u64>,
    r: (Option<FileRead>, Option<FileRead>),
    content: Seq<u8>,
)
    requires
        selector.len() == 2,
        d.takes_write(0, selector, selected.registers(), w),
        selected.content_at((selector[0] + 256 * selector[1]) as u16) == Some(
            ContentView::Data(content),
        ),
        read.content_at((selector[0] + 256 * selector[1]) as u16) == Some(
            ContentView::Data(content),
        ),
        selected.serves_read(1, asked.0, read.registers(), first, r.0),
        read.serves_read(1, asked.1, last, second, r.1),
        asked.0.len() + asked.1.len() <= content.len() <= u32::MAX,
    ensures
        first == content.take(asked.0.len() as int),
        first + second == content.take((asked.0.len() + asked.1.len()) as int),
        r.0 is None && r.1 is None,
{
    assert(first =~= content.take(asked.0.len() as int));
    assert(first + second =~= content.take((asked.0.len() + asked.1.len()) as int));
}

/// The address of the description of a copy is written in two halves, upper half
/// first, highest byte first. The second half starts the copy at that address,
/// and both halves read back.
pub proof fn copy_address_is_taken_in_halves(
    d: FwCfg,
    half: FwCfg,
    whole: FwCfg,
    high: Seq<u8>,
    low: Seq<u8>,
    buffer: Seq<u8>,
    r: (Option<u64>, Option<u64>),
    read: (Seq<u8>, Seq<u8>),
    file: Option<FileRead>,
)
    requires
        high.len() == 4,
        low.len() == 4,
        buffer.len() == 4,
        d.takes_write(4, high, half.registers(), r.0),
        half.takes_write(8, low, whole.registers(), r.1),
        whole.serves_read(4, buffer, whole.registers(), read.0, file),
        whole.serves_read(8, buffer, whole.registers(), read.1, file),
    ensures
        r.0 is None,
        r.1 == Some(crate::bytes::be64(high + low, 0)),
        read.0 == high,
        read.1 == low,
        whole.registers().selector == d.registers().selector,
        whole.registers().data_offset == d.registers().data_offset,
{
    let h = crate::bytes::be32(high, 0);
    let l = crate::bytes::be32(low, 0);
    assert(crate::bytes::be64(high + low, 0) == h * 0x1_0000_0000 + l) by {
        assert(crate::bytes::be32(high + low, 0) == h);
        assert(crate::bytes::be32(high + low, 4) == l);
    }
    lemma_halves(h, l, d.registers().dma_address);
    assert(half.registers().dma_address / 0x1_0000_0000 == h);
    assert(whole.registers().dma_address == h * 0x1_0000_0000 + l);
    assert(read.0 == crate::bytes::u32_be(h) && read.1 == crate::bytes::u32_be(l));
    assert(read.0 == high) by {
        lemma_be32_written(high);
    }
    assert(read.1 == low) by {
        lemma_be32_written(low);
    }
}

proof fn lemma_halves(high: u32, low: u32, address: u64)
    ensures
        ({
            let half = (high * 0x1_0000_0000 + address as int % 0x1_0000_0000) as u64;
            let whole = (half as int / 0x1_0000_0000 * 0x1_0000_0000 + low) as u64;
            &&& half as int / 0x1_0000_0000 == high
            &&& half / 0x1_0000_0000 == high
            &&& whole == high * 0x1_0000_0000 + low
            &&& whole / 0x1_0000_0000 == high
            &&& whole % 0x1_0000_0000 == low
        }),
{
}

proof fn lemma_be32_written(b: Seq<u8>)
    requires
        b.len() == 4,
    ensures
        crate::bytes::u32_be(crate::bytes::be32(b, 0)) == b,
{
    crate::bytes::lemma_u32_of_parts(b[3] as int, b[2] as int, b[1] as int, b[0] as int);
    assert(crate::bytes::u32_be(crate::bytes::be32(b, 0)) =~= b);
}

/// A copy moves what its description names. The first four bytes say what to do:
/// bit 3 selects what the upper half names and starts over, bit 1 reads. As many
/// bytes are put at the address in the last eight bytes as the next four say, or
/// as there are; each is the byte that is due, from where reading stands.
pub proof fn copy_moves_what_it_names(
    d: FwCfg,
    descriptor: Seq<u8>,
    after: FwCfgRegisters,
    step: DmaStep,
    content: ContentView,
)
    requires
        descriptor.len() == 16,
        d.dma_begins(descriptor, after, step),
        crate::bytes::be32(descriptor, 0) / 2 % 2 == 1,
        d.content_at(after.selector) == Some(content),
        content.ok(),
        content.size() <= u32::MAX,
        content is Data || content is Word || content is File,
    ensures
        ({
            let control = crate::bytes::be32(descriptor, 0);
            let wanted = crate::bytes::be32(descriptor, 4);
            let address = crate::bytes::be64(descriptor, 8);
            let selects = control / 8 % 2 == 1;
            let at = if selects {
                0
            } else {
                d.registers().data_offset as int
            };
            let left = if at < content.size() {
                content.size() - at
            } else {
                0
            };
            let n = if wanted < left {
                wanted as int
            } else {
                left
            };
            &&& after.selector == (if selects {
                control / 0x1_0000
            } else {
                d.registers().selector as u32
            })
            &&& after.data_offset == at
            &&& match content {
                ContentView::File { file, offset, .. } => {
                    &&& step matches DmaStep::CopyFile { file: f, at: a, len, address: to }
                    &&& f == file && a == offset + at && len == n && to == address
                },
                _ => {
                    &&& step matches DmaStep::Copy { bytes, address: to }
                    &&& bytes@.len() == n
                    &&& forall|i: int| 0 <= i < n ==> #[trigger] bytes@[i] == content.bytes()[at + i]
                    &&& to == address
                },
            }
        }),
{
}

/// A description that skips moves the place from which is read on by its length
/// and copies nothing; one that writes, or does nothing, is an error.
pub proof fn other_copies_move_nothing(
    d: FwCfg,
    descriptor: Seq<u8>,
    after: FwCfgRegisters,
    step: DmaStep,
)
    requires
        descriptor.len() == 16,
        d.dma_begins(descriptor, after, step),
        d.skips_inside(descriptor),
        crate::bytes::be32(descriptor, 0) / 2 % 2 == 0,
    ensures
        ({
            let control = crate::bytes::be32(descriptor, 0);
            let skips = control / 16 % 2 == 0 && control / 4 % 2 == 1;
            let at = if control / 8 % 2 == 1 {
                0
            } else {
                d.registers().data_offset as int
            };
            &&& step == (DmaStep::Finished { error: !skips })
            &&& after.data_offset == at + (if skips {
                crate::bytes::be32(descriptor, 4) as int
            } else {
                0
            })
        }),
{
}

} // verus!
