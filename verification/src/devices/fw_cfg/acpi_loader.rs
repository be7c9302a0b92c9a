//! The script by which firmware puts ACPI tables into memory.
//!
//! Commands of 128 bytes allocate memory for files, add the address of a file
//! to a pointer, and fill in checksums.
use crate::bytes::{push_bytes, push_u32_le, push_zeros, resize_zeros};
use crate::devices::fw_cfg::content::FwCfgItem;
use crate::devices::fw_cfg::names::create_file_name;
use vstd::prelude::*;

verus! {

pub const COMMAND_ALLOCATE: u32 = 0x1;

pub const COMMAND_ADD_POINTER: u32 = 0x2;

pub const COMMAND_ADD_CHECKSUM: u32 = 0x3;

/// Anywhere below 4 GiB.
pub const ALLOC_ZONE_HIGH: u8 = 0x1;

/// In the area that is searched for tables.
pub const ALLOC_ZONE_FSEG: u8 = 0x2;

pub const FW_CFG_FILENAME_TABLE_LOADER: &'static str = "etc/table-loader";

pub const FW_CFG_FILENAME_RSDP: &'static str = "etc/acpi/rsdp";

pub const FW_CFG_FILENAME_ACPI_TABLES: &'static str = "etc/acpi/tables";

/// Size of the script.
pub const Q35_ACPI_TABLE_LOADER_SIZE: usize = 0x1000;

/// Size of the tables.
pub const Q35_ACPI_TABLES_SIZE: usize = 0x2_0000;

/// Where a table holds its checksum.
pub const TABLE_CHECKSUM_OFFSET: usize = 9;

/// Tables to be loaded.
pub struct AcpiTable {
    /// The root pointer.
    pub rsdp: Vec<u8>,
    /// All other tables.
    pub tables: Vec<u8>,
    /// Offset and size of each pointer among the tables.
    pub table_pointers: Vec<(usize, u8)>,
    /// Offset and length of each table.
    pub table_checksums: Vec<(usize, usize)>,
}

impl AcpiTable {
    /// Every table holds its checksum, and the root pointer those of its
    /// revision.
    pub open spec fn wf(&self) -> bool {
        &&& self.rsdp@.len() > 8
        &&& self.rsdp@.len() > 20 ==> self.rsdp@.len() > 32
        &&& forall|k: int|
            0 <= k < self.table_checksums@.len() ==> (#[trigger] self.table_checksums@[k]).0
                + TABLE_CHECKSUM_OFFSET < self.tables@.len()
    }

    /// Tells whether every table holds its checksum, and the root pointer those
    /// of its revision.
    pub fn is_valid(&self) -> (r: bool)
        ensures
            r == self.wf(),
    {
        let n: usize = self.rsdp.len();
        if n <= 8 || (n > 20 && n <= 32) {
            return false;
        }
        let tables: usize = self.tables.len();
        let mut i: usize = 0;
        while i < self.table_checksums.len()
            invariant
                i <= self.table_checksums@.len(),
                tables == self.tables@.len(),
                self.rsdp@.len() > 8,
                self.rsdp@.len() > 20 ==> self.rsdp@.len() > 32,
                forall|k: int|
                    0 <= k < i ==> (#[trigger] self.table_checksums@[k]).0 + TABLE_CHECKSUM_OFFSET
                        < tables,
            decreases self.table_checksums@.len() - i,
        {
            let (offset, _): (usize, usize) = self.table_checksums[i];
            if tables <= TABLE_CHECKSUM_OFFSET || offset >= tables - TABLE_CHECKSUM_OFFSET {
                assert(self.table_checksums@[i as int].0 + TABLE_CHECKSUM_OFFSET >= tables);
                return false;
            }
            i = i + 1;
        }
        true
    }
}

spec fn zeros(n: nat) -> Seq<u8> {
    Seq::new(n, |i: int| 0u8)
}

/// Allocates memory for a file.
pub closed spec fn allocate(file: Seq<char>, align: u32, zone: u8) -> Seq<u8> {
    crate::bytes::u32_le(COMMAND_ALLOCATE) + crate::devices::fw_cfg::names::file_name(file)
        + crate::bytes::u32_le(align) + seq![zone] + zeros(63)
}

/// Adds the address of `src` to the pointer at an offset in `dst`.
pub closed spec fn add_pointer(dst: Seq<char>, src: Seq<char>, offset: u32, size: u8) -> Seq<u8> {
    crate::bytes::u32_le(COMMAND_ADD_POINTER) + crate::devices::fw_cfg::names::file_name(dst)
        + crate::devices::fw_cfg::names::file_name(src) + crate::bytes::u32_le(offset) + seq![size]
        + zeros(7)
}

/// Fills in the checksum at an offset in a file.
pub closed spec fn add_checksum(file: Seq<char>, offset: u32, start: u32, len: u32) -> Seq<u8> {
    crate::bytes::u32_le(COMMAND_ADD_CHECKSUM) + crate::devices::fw_cfg::names::file_name(file)
        + crate::bytes::u32_le(offset) + crate::bytes::u32_le(start) + crate::bytes::u32_le(len)
        + zeros(56)
}

/// Every command has the same size.
pub proof fn commands_have_one_size(
    file: Seq<char>,
    other: Seq<char>,
    a: u32,
    b: u32,
    c: u32,
    d: u8,
)
    ensures
        allocate(file, a, d).len() == 128,
        add_pointer(file, other, a, d).len() == 128,
        add_checksum(file, a, b, c).len() == 128,
{
}

/// Where the parts of a command that allocates are.
pub proof fn allocate_layout(file: Seq<char>, align: u32, zone: u8)
    ensures
        ({
            let c = allocate(file, align, zone);
            &&& c.len() == 128
            &&& crate::bytes::le32(c, 0) == 1
            &&& c.subrange(4, 60) == crate::devices::fw_cfg::names::file_name(file)
            &&& crate::bytes::le32(c, 60) == align
            &&& c[64] == zone
        }),
{
    let c = allocate(file, align, zone);
    crate::bytes::round_trips(0, COMMAND_ALLOCATE, 0);
    crate::bytes::round_trips(0, align, 0);
    assert(c.subrange(4, 60) =~= crate::devices::fw_cfg::names::file_name(file));
    assert(crate::bytes::le32(c, 0) == crate::bytes::le32(
        crate::bytes::u32_le(COMMAND_ALLOCATE),
        0,
    ));
    assert(crate::bytes::le32(c, 60) == crate::bytes::le32(crate::bytes::u32_le(align), 0));
}

/// Where the parts of a command that adds to a pointer are.
pub proof fn add_pointer_layout(dst: Seq<char>, src: Seq<char>, offset: u32, size: u8)
    ensures
        ({
            let c = add_pointer(dst, src, offset, size);
            &&& c.len() == 128
            &&& crate::bytes::le32(c, 0) == 2
            &&& c.subrange(4, 60) == crate::devices::fw_cfg::names::file_name(dst)
            &&& c.subrange(60, 116) == crate::devices::fw_cfg::names::file_name(src)
            &&& crate::bytes::le32(c, 116) == offset
            &&& c[120] == size
        }),
{
    let c = add_pointer(dst, src, offset, size);
    crate::bytes::round_trips(0, COMMAND_ADD_POINTER, 0);
    crate::bytes::round_trips(0, offset, 0);
    assert(c.subrange(4, 60) =~= crate::devices::fw_cfg::names::file_name(dst));
    assert(c.subrange(60, 116) =~= crate::devices::fw_cfg::names::file_name(src));
    assert(crate::bytes::le32(c, 0) == crate::bytes::le32(
        crate::bytes::u32_le(COMMAND_ADD_POINTER),
        0,
    ));
    assert(crate::bytes::le32(c, 116) == crate::bytes::le32(crate::bytes::u32_le(offset), 0));
}

/// Where the parts of a command that fills in a checksum are.
pub proof fn add_checksum_layout(file: Seq<char>, offset: u32, start: u32, len: u32)
    ensures
        ({
            let c = add_checksum(file, offset, start, len);
            &&& c.len() == 128
            &&& crate::bytes::le32(c, 0) == 3
            &&& c.subrange(4, 60) == crate::devices::fw_cfg::names::file_name(file)
            &&& crate::bytes::le32(c, 60) == offset
            &&& crate::bytes::le32(c, 64) == start
            &&& crate::bytes::le32(c, 68) == len
        }),
{
    let c = add_checksum(file, offset, start, len);
    crate::bytes::round_trips(0, COMMAND_ADD_CHECKSUM, 0);
    crate::bytes::round_trips(0, offset, 0);
    crate::bytes::round_trips(0, start, 0);
    crate::bytes::round_trips(0, len, 0);
    assert(c.subrange(4, 60) =~= crate::devices::fw_cfg::names::file_name(file));
    assert(crate::bytes::le32(c, 0) == crate::bytes::le32(
        crate::bytes::u32_le(COMMAND_ADD_CHECKSUM),
        0,
    ));
    assert(crate::bytes::le32(c, 60) == crate::bytes::le32(crate::bytes::u32_le(offset), 0));
    assert(crate::bytes::le32(c, 64) == crate::bytes::le32(crate::bytes::u32_le(start), 0));
    assert(crate::bytes::le32(c, 68) == crate::bytes::le32(crate::bytes::u32_le(len), 0));
}

fn push_allocate(v: &mut Vec<u8>, file: &str, align: u32, zone: u8)
    ensures
        final(v)@ == old(v)@ + allocate(file@, align, zone),
{
    push_u32_le(v, COMMAND_ALLOCATE);
    let name: [u8; 56] = create_file_name(file);
    push_bytes(v, name.as_slice());
    push_u32_le(v, align);
    v.push(zone);
    push_zeros(v, 63);
    assert(v@ =~= old(v)@ + allocate(file@, align, zone));
}

fn push_add_pointer(v: &mut Vec<u8>, dst: &str, src: &str, offset: u32, size: u8)
    ensures
        final(v)@ == old(v)@ + add_pointer(dst@, src@, offset, size),
{
    push_u32_le(v, COMMAND_ADD_POINTER);
    let dst_name: [u8; 56] = create_file_name(dst);
    push_bytes(v, dst_name.as_slice());
    let src_name: [u8; 56] = create_file_name(src);
    push_bytes(v, src_name.as_slice());
    push_u32_le(v, offset);
    v.push(size);
    push_zeros(v, 7);
    assert(v@ =~= old(v)@ + add_pointer(dst@, src@, offset, size));
}

fn push_add_checksum(v: &mut Vec<u8>, file: &str, offset: u32, start: u32, len: u32)
    ensures
        final(v)@ == old(v)@ + add_checksum(file@, offset, start, len),
{
    push_u32_le(v, COMMAND_ADD_CHECKSUM);
    let name: [u8; 56] = create_file_name(file);
    push_bytes(v, name.as_slice());
    push_u32_le(v, offset);
    push_u32_le(v, start);
    push_u32_le(v, len);
    push_zeros(v, 56);
    assert(v@ =~= old(v)@ + add_checksum(file@, offset, start, len));
}

/// The low 32 bits.
pub open spec fn low32(n: int) -> u32 {
    (n % 0x1_0000_0000) as u32
}

fn low_word(n: usize) -> (r: u32)
    ensures
        r == low32(n as int),
{
    (n as u64 % 0x1_0000_0000) as u32
}

/// The commands for the first `n` pointers.
pub open spec fn pointer_commands(pointers: Seq<(usize, u8)>, n: nat) -> Seq<u8>
    decreases n,
{
    if n == 0 {
        Seq::empty()
    } else {
        pointer_commands(pointers, (n - 1) as nat) + add_pointer(
            FW_CFG_FILENAME_ACPI_TABLES@,
            FW_CFG_FILENAME_ACPI_TABLES@,
            low32(pointers[n - 1].0 as int),
            pointers[n - 1].1,
        )
    }
}

/// The commands for the checksums of the first `n` tables.
pub open spec fn checksum_commands(checksums: Seq<(usize, usize)>, n: nat) -> Seq<u8>
    decreases n,
{
    if n == 0 {
        Seq::empty()
    } else {
        checksum_commands(checksums, (n - 1) as nat) + add_checksum(
            FW_CFG_FILENAME_ACPI_TABLES@,
            low32(checksums[n - 1].0 + TABLE_CHECKSUM_OFFSET),
            low32(checksums[n - 1].0 as int),
            low32(checksums[n - 1].1 as int),
        )
    }
}

/// The tables with the checksums of the first `n` cleared.
pub open spec fn cleared(tables: Seq<u8>, checksums: Seq<(usize, usize)>, n: nat) -> Seq<u8>
    decreases n,
{
    if n == 0 {
        tables
    } else {
        cleared(tables, checksums, (n - 1) as nat).update(
            checksums[n - 1].0 + TABLE_CHECKSUM_OFFSET,
            0,
        )
    }
}

/// The root pointer with its checksums cleared.
pub open spec fn cleared_rsdp(rsdp: Seq<u8>) -> Seq<u8> {
    if rsdp.len() > 20 {
        rsdp.update(8, 0).update(32, 0)
    } else {
        rsdp.update(8, 0)
    }
}

/// The commands for the root pointer: a 32-bit pointer and one checksum, or a
/// 64-bit pointer and two.
pub open spec fn rsdp_commands(len: nat) -> Seq<u8> {
    if len <= 20 {
        add_pointer(FW_CFG_FILENAME_RSDP@, FW_CFG_FILENAME_ACPI_TABLES@, 16, 4) + add_checksum(
            FW_CFG_FILENAME_RSDP@,
            8,
            0,
            20,
        )
    } else {
        add_pointer(FW_CFG_FILENAME_RSDP@, FW_CFG_FILENAME_ACPI_TABLES@, 24, 8) + add_checksum(
            FW_CFG_FILENAME_RSDP@,
            8,
            0,
            20,
        ) + add_checksum(FW_CFG_FILENAME_RSDP@, 32, 0, low32(len as int))
    }
}

/// The script.
pub open spec fn loader_script(
    rsdp_len: nat,
    pointers: Seq<(usize, u8)>,
    checksums: Seq<(usize, usize)>,
) -> Seq<u8> {
    allocate(FW_CFG_FILENAME_RSDP@, 16, ALLOC_ZONE_FSEG) + allocate(
        FW_CFG_FILENAME_ACPI_TABLES@,
        4,
        ALLOC_ZONE_HIGH,
    ) + pointer_commands(pointers, pointers.len()) + checksum_commands(checksums, checksums.len())
        + rsdp_commands(rsdp_len)
}

/// The files that firmware loads ACPI tables from.
pub struct AcpiFiles {
    pub table_loader: FwCfgItem,
    pub rsdp: FwCfgItem,
    pub tables: FwCfgItem,
}

/// Contents of the script file.
pub open spec fn loader_content(t: AcpiTable) -> Seq<u8> {
    crate::bytes::resized(
        loader_script(t.rsdp@.len(), t.table_pointers@, t.table_checksums@),
        0x1000,
    )
}

/// Contents of the tables file.
pub open spec fn tables_content(t: AcpiTable) -> Seq<u8> {
    crate::bytes::resized(
        cleared(t.tables@, t.table_checksums@, t.table_checksums@.len()),
        0x2_0000,
    )
}

/// A file in memory as values.
pub open spec fn memory_item(name: Seq<char>, bytes: Seq<u8>) -> crate::devices::fw_cfg::content::ItemView {
    crate::devices::fw_cfg::content::ItemView {
        name,
        content: crate::devices::fw_cfg::content::ContentView::Data(bytes),
    }
}

/// Makes the files that firmware loads ACPI tables from. Script and tables are
/// brought to a fixed size.
pub fn create_acpi_loader(acpi_table: AcpiTable) -> (r: AcpiFiles)
    requires
        acpi_table.wf(),
    ensures
        r.table_loader@ == memory_item(FW_CFG_FILENAME_TABLE_LOADER@, loader_content(acpi_table)),
        r.rsdp@ == memory_item(FW_CFG_FILENAME_RSDP@, cleared_rsdp(acpi_table.rsdp@)),
        r.tables@ == memory_item(FW_CFG_FILENAME_ACPI_TABLES@, tables_content(acpi_table)),
{
    let ghost t = acpi_table;
    let AcpiTable { rsdp, tables, table_pointers, table_checksums } = acpi_table;
    let mut rsdp: Vec<u8> = rsdp;
    let mut tables: Vec<u8> = tables;
    let mut script: Vec<u8> = Vec::new();
    push_allocate(&mut script, FW_CFG_FILENAME_RSDP, 16, ALLOC_ZONE_FSEG);
    push_allocate(&mut script, FW_CFG_FILENAME_ACPI_TABLES, 4, ALLOC_ZONE_HIGH);
    let ghost head = allocate(FW_CFG_FILENAME_RSDP@, 16, ALLOC_ZONE_FSEG) + allocate(
        FW_CFG_FILENAME_ACPI_TABLES@,
        4,
        ALLOC_ZONE_HIGH,
    );
    assert(script@ =~= head + pointer_commands(table_pointers@, 0));
    let mut i: usize = 0;
    while i < table_pointers.len()
        invariant
            i <= table_pointers@.len(),
            script@ == head + pointer_commands(table_pointers@, i as nat),
        decreases table_pointers@.len() - i,
    {
        let (offset, size): (usize, u8) = table_pointers[i];
        push_add_pointer(
            &mut script,
            FW_CFG_FILENAME_ACPI_TABLES,
            FW_CFG_FILENAME_ACPI_TABLES,
            low_word(offset),
            size,
        );
        i = i + 1;
        assert(script@ =~= head + pointer_commands(table_pointers@, i as nat));
    }
    let ghost head = script@;
    assert(script@ =~= head + checksum_commands(table_checksums@, 0));
    let mut k: usize = 0;
    while k < table_checksums.len()
        invariant
            k <= table_checksums@.len(),
            script@ == head + checksum_commands(table_checksums@, k as nat),
            tables@ == cleared(t.tables@, table_checksums@, k as nat),
            tables@.len() == t.tables@.len(),
            t.wf(),
            t.table_checksums == table_checksums,
        decreases table_checksums@.len() - k,
    {
        let (offset, len): (usize, usize) = table_checksums[k];
        assert(t.table_checksums@[k as int].0 == offset);
        let size: usize = tables.len();
        assert(offset + TABLE_CHECKSUM_OFFSET < size);
        tables.set(offset + TABLE_CHECKSUM_OFFSET, 0);
        push_add_checksum(
            &mut script,
            FW_CFG_FILENAME_ACPI_TABLES,
            low_word(offset + TABLE_CHECKSUM_OFFSET),
            low_word(offset),
            low_word(len),
        );
        k = k + 1;
        assert(script@ =~= head + checksum_commands(table_checksums@, k as nat));
    }
    let ghost before = script@;
    rsdp.set(8, 0);
    if rsdp.len() > 20 {
        rsdp.set(32, 0);
        push_add_pointer(
            &mut script,
            FW_CFG_FILENAME_RSDP,
            FW_CFG_FILENAME_ACPI_TABLES,
            24,
            8,
        );
        push_add_checksum(&mut script, FW_CFG_FILENAME_RSDP, 8, 0, 20);
        let len: u32 = low_word(rsdp.len());
        push_add_checksum(&mut script, FW_CFG_FILENAME_RSDP, 32, 0, len);
    } else {
        push_add_pointer(
            &mut script,
            FW_CFG_FILENAME_RSDP,
            FW_CFG_FILENAME_ACPI_TABLES,
            16,
            4,
        );
        push_add_checksum(&mut script, FW_CFG_FILENAME_RSDP, 8, 0, 20);
    }
    assert(script@ =~= before + rsdp_commands(t.rsdp@.len()));
    resize_zeros(&mut script, Q35_ACPI_TABLE_LOADER_SIZE);
    resize_zeros(&mut tables, Q35_ACPI_TABLES_SIZE);
    AcpiFiles {
        table_loader: FwCfgItem::of_bytes(FW_CFG_FILENAME_TABLE_LOADER, script),
        rsdp: FwCfgItem::of_bytes(FW_CFG_FILENAME_RSDP, rsdp),
        tables: FwCfgItem::of_bytes(FW_CFG_FILENAME_ACPI_TABLES, tables),
    }
}

/// Firmware finds every checksum cleared, and every other byte of the tables
/// as it was.
pub proof fn only_checksums_are_cleared(tables: Seq<u8>, checksums: Seq<(usize, usize)>, n: nat)
    requires
        n <= checksums.len(),
        forall|k: int|
            0 <= k < checksums.len() ==> (#[trigger] checksums[k]).0 + TABLE_CHECKSUM_OFFSET
                < tables.len(),
    ensures
        cleared(tables, checksums, n).len() == tables.len(),
        forall|k: int|
            0 <= k < n ==> cleared(tables, checksums, n)[(#[trigger] checksums[k]).0
                + TABLE_CHECKSUM_OFFSET] == 0,
        forall|i: int|
            0 <= i < tables.len() && (forall|k: int|
                0 <= k < n ==> i != (#[trigger] checksums[k]).0 + TABLE_CHECKSUM_OFFSET)
                ==> #[trigger] cleared(tables, checksums, n)[i] == tables[i],
    decreases n,
{
    if n > 0 {
        only_checksums_are_cleared(tables, checksums, (n - 1) as nat);
        assert(checksums[n - 1].0 + TABLE_CHECKSUM_OFFSET < tables.len());
        assert forall|i: int|
            0 <= i < tables.len() && (forall|k: int|
                0 <= k < n ==> i != (#[trigger] checksums[k]).0
                    + TABLE_CHECKSUM_OFFSET) implies #[trigger] cleared(tables, checksums, n)[i]
            == tables[i] by {
            assert(i != checksums[n - 1].0 + TABLE_CHECKSUM_OFFSET);
            assert(cleared(tables, checksums, (n - 1) as nat)[i] == tables[i]);
        }
    }
}

/// As long as the commands fit, the script file holds all of them.
pub proof fn script_is_complete(
    rsdp_len: nat,
    pointers: Seq<(usize, u8)>,
    checksums: Seq<(usize, usize)>,
)
    requires
        pointers.len() + checksums.len() <= 27,
    ensures
        ({
            let script = loader_script(rsdp_len, pointers, checksums);
            crate::bytes::resized(script, 0x1000).take(script.len() as int) == script
        }),
{
    lemma_command_lengths(pointers, pointers.len(), checksums, checksums.len());
    let script = loader_script(rsdp_len, pointers, checksums);
    commands_have_one_size(seq![], seq![], 0, 0, 0, 0);
    assert(script.len() <= 0x1000);
    assert(crate::bytes::resized(script, 0x1000).take(script.len() as int) =~= script);
}

pub(crate) proof fn lemma_command_lengths(
    pointers: Seq<(usize, u8)>,
    n: nat,
    checksums: Seq<(usize, usize)>,
    m: nat,
)
    ensures
        pointer_commands(pointers, n).len() == 128 * n,
        checksum_commands(checksums, m).len() == 128 * m,
    decreases n + m,
{
    if n > 0 {
        lemma_command_lengths(pointers, (n - 1) as nat, checksums, m);
    } else if m > 0 {
        lemma_command_lengths(pointers, n, checksums, (m - 1) as nat);
    }
}

} // verus!
