//! The PCI bus, its identifiers and the two ways to reach configuration space.
use crate::bytes::{byte_of_u32, fill_byte, with_byte_u32};
use crate::pci::device::{
    BarReprogrammingParams, PciBarConfiguration, PciBarRegionType, PciDevice,
};
use byteorder::{ByteOrder, LittleEndian};
use std::collections::HashMap;
use vstd::prelude::*;

verus! {

broadcast use vstd::std_specs::hash::group_hash_axioms;

/// Device number of the host bridge.
pub const PCI_ROOT_DEVICE_ID: u8 = 0;

/// Number of devices on a bus.
pub const NUM_DEVICE_IDS: u8 = 32;

/// What can go wrong on a bus.
#[derive(Clone, Copy, Debug, PartialEq, Eq, Structural)]
pub enum PciRootError {
    /// No address space for a device.
    AllocateDeviceAddrs,
    /// No interrupt for a device.
    AllocateIrq,
    /// A device could not be added to the port bus.
    PioInsert,
    /// A device could not be added to the memory bus.
    MmioInsert,
    /// All device numbers are in use.
    NoPciDeviceSlotAvailable,
    /// There is no such device number.
    InvalidPciDeviceSlot(usize),
    /// The device number is in use.
    AlreadyInUsePciDeviceSlot(usize),
}

/// A window to add to a bus: the port bus or the memory bus.
#[derive(Clone, Copy, Debug, PartialEq, Eq, Structural)]
pub struct BarMapping {
    pub port_bus: bool,
    pub addr: u64,
    pub size: u64,
}

/// State of a device number.
#[derive(Clone, Copy, Debug, PartialEq, Eq, Structural)]
pub enum DeviceIdState {
    Free,
    Reserved,
    Allocated,
}

/// A PCI bus.
///
/// Functions are known by a handle, under which one function can stand at
/// several positions.
pub struct PciBus<D> {
    devices: HashMap<u8, usize>,
    functions: Vec<D>,
    device_ids: [DeviceIdState; 32],
}

/// Position of a function on the bus.
pub open spec fn slot(device: int, function: int) -> u8 {
    (8 * device + function) as u8
}

/// Every position holds one of `n` functions.
pub open spec fn known(devices: Map<u8, usize>, n: nat) -> bool {
    forall|k: u8| #[trigger] devices.contains_key(k) ==> devices[k] < n
}

/// Lowest free device number at or after `from`, or 32.
pub open spec fn first_free(ids: Seq<DeviceIdState>, from: int) -> int
    decreases 32 - from,
{
    if from >= 32 {
        32
    } else if ids[from] == DeviceIdState::Free {
        from
    } else {
        first_free(ids, from + 1)
    }
}

/// What reserving a device number leads to: the states after it, and the answer.
/// Only a free number can be reserved.
pub open spec fn reserves(
    ids: Seq<DeviceIdState>,
    after: Seq<DeviceIdState>,
    id: u8,
    r: Result<u8, PciRootError>,
) -> bool {
    if id >= NUM_DEVICE_IDS {
        &&& r == Err::<u8, PciRootError>(PciRootError::InvalidPciDeviceSlot(id as usize))
        &&& after == ids
    } else if ids[id as int] != DeviceIdState::Free {
        &&& r == Err::<u8, PciRootError>(PciRootError::AlreadyInUsePciDeviceSlot(id as usize))
        &&& after == ids
    } else {
        &&& r == Ok::<u8, PciRootError>(id)
        &&& after == ids.update(id as int, DeviceIdState::Reserved)
    }
}

/// What allocating a device number leads to: the states after it, and the answer.
pub open spec fn allocates(
    ids: Seq<DeviceIdState>,
    after: Seq<DeviceIdState>,
    id: Option<u8>,
    r: Result<u8, PciRootError>,
) -> bool {
    match id {
        Some(id) => if id >= NUM_DEVICE_IDS {
            &&& r == Err::<u8, PciRootError>(PciRootError::InvalidPciDeviceSlot(id as usize))
            &&& after == ids
        } else if ids[id as int] == DeviceIdState::Allocated {
            &&& r == Err::<u8, PciRootError>(PciRootError::AlreadyInUsePciDeviceSlot(id as usize))
            &&& after == ids
        } else {
            &&& r == Ok::<u8, PciRootError>(id)
            &&& after == ids.update(id as int, DeviceIdState::Allocated)
        },
        None => {
            let free = first_free(ids, 0);
            if free == 32 {
                &&& r == Err::<u8, PciRootError>(PciRootError::NoPciDeviceSlotAvailable)
                &&& after == ids
            } else {
                &&& r == Ok::<u8, PciRootError>(free as u8)
                &&& after == ids.update(free, DeviceIdState::Allocated)
            }
        },
    }
}

/// What freeing a device number leads to: the states after it, and the answer.
pub open spec fn frees(
    ids: Seq<DeviceIdState>,
    after: Seq<DeviceIdState>,
    id: u8,
    r: Result<(), PciRootError>,
) -> bool {
    if id >= NUM_DEVICE_IDS {
        &&& r == Err::<(), PciRootError>(PciRootError::InvalidPciDeviceSlot(id as usize))
        &&& after == ids
    } else {
        &&& r is Ok
        &&& after == ids.update(id as int, DeviceIdState::Free)
    }
}

/// What adding a function leads to: the positions after it, and the answer.
pub open spec fn places(
    devices: Map<u8, usize>,
    after: Map<u8, usize>,
    device_id: u8,
    function: u8,
    device: usize,
    r: Result<(), PciRootError>,
) -> bool {
    if device_id >= NUM_DEVICE_IDS || function > 7 {
        &&& r == Err::<(), PciRootError>(PciRootError::InvalidPciDeviceSlot(device_id as usize))
        &&& after == devices
    } else {
        &&& r is Ok
        &&& after == devices.insert(slot(device_id as int, function as int), device)
    }
}

/// The positions without those of a device.
pub open spec fn without_device(devices: Map<u8, usize>, device: usize) -> Map<u8, usize> {
    devices.remove_keys(devices.dom().filter(|k: u8| devices[k] == device))
}

impl<D: PciDevice> PciBus<D> {
    /// The handle of the function at each position.
    pub closed spec fn devices(&self) -> Map<u8, usize> {
        self.devices@
    }

    /// The functions, by handle.
    pub closed spec fn functions(&self) -> Seq<D> {
        self.functions@
    }

    /// The state of each device number.
    pub closed spec fn ids(&self) -> Seq<DeviceIdState> {
        self.device_ids@
    }

    /// Every position holds a function that is known.
    pub open spec fn wf(&self) -> bool {
        &&& self.ids().len() == 32
        &&& known(self.devices(), self.functions().len())
    }

    /// A bus with a host bridge as device 0. The bridge has handle 0.
    pub fn new(pci_root: D) -> (r: Self)
        ensures
            r.wf(),
            r.devices() == Map::<u8, usize>::empty().insert(0, 0),
            r.functions() == seq![pci_root],
            r.ids() == Seq::new(
                32,
                |i: int|
                    if i == 0 {
                        DeviceIdState::Allocated
                    } else {
                        DeviceIdState::Free
                    },
            ),
    {
        let mut devices: HashMap<u8, usize> = HashMap::new();
        let mut functions: Vec<D> = Vec::new();
        let free: DeviceIdState = DeviceIdState::Free;
        let mut device_ids: [DeviceIdState; 32] = [free;32];
        assert(device_ids == vstd::array::spec_array_fill_for_copy_type::<DeviceIdState, 32>(free));
        functions.push(pci_root);
        devices.insert(PCI_ROOT_DEVICE_ID, 0);
        device_ids[0] = DeviceIdState::Allocated;
        assert(device_ids@ =~= Seq::new(
            32,
            |i: int|
                if i == 0 {
                    DeviceIdState::Allocated
                } else {
                    DeviceIdState::Free
                },
        ));
        PciBus { devices, functions, device_ids }
    }

    /// Makes a function known, and returns its handle. It is at no position
    /// yet.
    pub fn register(&mut self, device: D) -> (r: usize)
        requires
            old(self).wf(),
        ensures
            final(self).wf(),
            r == old(self).functions().len(),
            final(self).functions() == old(self).functions().push(device),
            final(self).devices() == old(self).devices(),
            final(self).ids() == old(self).ids(),
    {
        let r: usize = self.functions.len();
        self.functions.push(device);
        r
    }

    /// The windows of a device as entries for the port bus and the memory bus.
    pub fn register_mapping(bars: &Vec<PciBarConfiguration>) -> (r: Vec<BarMapping>)
        ensures
            r@ == bars@.map_values(
                |b: PciBarConfiguration|
                    BarMapping {
                        port_bus: b.region_type == PciBarRegionType::IoRegion,
                        addr: b.addr,
                        size: b.size,
                    },
            ),
    {
        let mut r: Vec<BarMapping> = Vec::new();
        let mut i: usize = 0;
        while i < bars.len()
            invariant
                i <= bars@.len(),
                r@.len() == i,
                forall|k: int|
                    0 <= k < i ==> #[trigger] r@[k] == (BarMapping {
                        port_bus: bars@[k].region_type == PciBarRegionType::IoRegion,
                        addr: bars@[k].addr,
                        size: bars@[k].size,
                    }),
            decreases bars@.len() - i,
        {
            let bar: PciBarConfiguration = bars[i];
            r.push(
                BarMapping {
                    port_bus: bar.region_type == PciBarRegionType::IoRegion,
                    addr: bar.addr,
                    size: bar.size,
                },
            );
            i = i + 1;
        }
        assert(r@ =~= bars@.map_values(
            |b: PciBarConfiguration|
                BarMapping {
                    port_bus: b.region_type == PciBarRegionType::IoRegion,
                    addr: b.addr,
                    size: b.size,
                },
        ));
        r
    }

    /// The error for a window that a bus did not take.
    pub fn mapping_error(mapping: &BarMapping) -> (r: PciRootError)
        ensures
            r == (if mapping.port_bus {
                PciRootError::PioInsert
            } else {
                PciRootError::MmioInsert
            }),
    {
        if mapping.port_bus {
            PciRootError::PioInsert
        } else {
            PciRootError::MmioInsert
        }
    }

    /// Adds a device as function 0.
    pub fn add_device(&mut self, device_id: u8, device: usize) -> (r: Result<(), PciRootError>)
        requires
            old(self).wf(),
            device < old(self).functions().len(),
        ensures
            final(self).wf(),
            final(self).ids() == old(self).ids(),
            final(self).functions() == old(self).functions(),
            places(old(self).devices(), final(self).devices(), device_id, 0, device, r),
    {
        self.add_device_function(device_id, 0, device)
    }

    /// Adds a function of a device, in place of one that was there.
    pub fn add_device_function(&mut self, device_id: u8, function: u8, device: usize) -> (r: Result<
        (),
        PciRootError,
    >)
        requires
            old(self).wf(),
            device < old(self).functions().len(),
        ensures
            final(self).wf(),
            final(self).ids() == old(self).ids(),
            final(self).functions() == old(self).functions(),
            places(old(self).devices(), final(self).devices(), device_id, function, device, r),
    {
        if device_id >= NUM_DEVICE_IDS || function > 7 {
            return Err(PciRootError::InvalidPciDeviceSlot(device_id as usize));
        }
        self.devices.insert(8 * device_id + function, device);
        Ok(())
    }

    /// Removes a device from every position it is at. It stays known by its
    /// handle.
    pub fn remove_by_device(&mut self, device: usize) -> (r: Result<(), PciRootError>)
        requires
            old(self).wf(),
        ensures
            final(self).wf(),
            r is Ok,
            final(self).ids() == old(self).ids(),
            final(self).functions() == old(self).functions(),
            final(self).devices() == without_device(old(self).devices(), device),
    {
        let ghost before = self.devices@;
        let mut k: u16 = 0;
        while k < 256
            invariant
                k <= 256,
                before == old(self).devices@,
                self.device_ids == old(self).device_ids,
                self.functions == old(self).functions,
                forall|j: u8|
                    #[trigger] self.devices@.contains_key(j) <==> before.contains_key(j) && !(j < k
                        && before[j] == device),
                forall|j: u8| self.devices@.contains_key(j) ==> self.devices@[j] == before[j],
            decreases 256 - k,
        {
            let key: u8 = k as u8;
            let gone: bool = match self.devices.get(&key) {
                Some(d) => *d == device,
                None => false,
            };
            if gone {
                self.devices.remove(&key);
            }
            k = k + 1;
        }
        assert(self.devices@ =~= before.remove_keys(
            before.dom().filter(|k: u8| before[k] == device),
        ));
        Ok(())
    }

    /// Reserves a device number, so that automatic allocation skips it.
    pub fn reserve_device_id(&mut self, id: u8) -> (r: Result<u8, PciRootError>)
        requires
            old(self).wf(),
        ensures
            final(self).wf(),
            final(self).devices() == old(self).devices(),
            final(self).functions() == old(self).functions(),
            reserves(old(self).ids(), final(self).ids(), id, r),
    {
        let idx: usize = id as usize;
        if idx < 32 {
            if self.device_ids[idx] == DeviceIdState::Free {
                self.device_ids[idx] = DeviceIdState::Reserved;
                Ok(id)
            } else {
                Err(PciRootError::AlreadyInUsePciDeviceSlot(idx))
            }
        } else {
            Err(PciRootError::InvalidPciDeviceSlot(idx))
        }
    }

    /// Allocates a device number: the given one, unless it is allocated
    /// already, or the lowest free one. A reserved number can only be had by
    /// asking for it.
    pub fn allocate_device_id(&mut self, id: Option<u8>) -> (r: Result<u8, PciRootError>)
        requires
            old(self).wf(),
        ensures
            final(self).wf(),
            final(self).devices() == old(self).devices(),
            final(self).functions() == old(self).functions(),
            allocates(old(self).ids(), final(self).ids(), id, r),
    {
        match id {
            Some(id) => {
                let idx: usize = id as usize;
                if idx < 32 {
                    if self.device_ids[idx] == DeviceIdState::Allocated {
                        Err(PciRootError::AlreadyInUsePciDeviceSlot(idx))
                    } else {
                        self.device_ids[idx] = DeviceIdState::Allocated;
                        Ok(id)
                    }
                } else {
                    Err(PciRootError::InvalidPciDeviceSlot(idx))
                }
            },
            None => {
                let mut idx: u8 = 0;
                while idx < 32
                    invariant
                        idx <= 32,
                        self.wf(),
                        *self == *old(self),
                        id is None,
                        first_free(self.ids(), 0) == first_free(self.ids(), idx as int),
                    decreases 32 - idx,
                {
                    if self.device_ids[idx as usize] == DeviceIdState::Free {
                        self.device_ids[idx as usize] = DeviceIdState::Allocated;
                        return Ok(idx);
                    }
                    idx = idx + 1;
                }
                Err(PciRootError::NoPciDeviceSlotAvailable)
            },
        }
    }

    /// Frees a device number.
    pub fn free_device_id(&mut self, id: u8) -> (r: Result<(), PciRootError>)
        requires
            old(self).wf(),
        ensures
            final(self).wf(),
            final(self).devices() == old(self).devices(),
            final(self).functions() == old(self).functions(),
            frees(old(self).ids(), final(self).ids(), id, r),
    {
        if id < 32 {
            self.device_ids[id as usize] = DeviceIdState::Free;
            Ok(())
        } else {
            Err(PciRootError::InvalidPciDeviceSlot(id as usize))
        }
    }

    /// Whether a register read may give `r`, and leave the bus as `after`. If
    /// there is no function, ones are read; else only that function can change.
    pub open spec fn may_read(&self, key: u8, register: int, r: u32, after: Self) -> bool {
        &&& after.devices() == self.devices()
        &&& after.ids() == self.ids()
        &&& if self.devices().contains_key(key) {
            let h = self.devices()[key] as int;
            &&& after.functions() == self.functions().update(h, after.functions()[h])
            &&& self.functions()[h].may_read(register, r, after.functions()[h])
        } else {
            r == 0xffff_ffff && after.functions() == self.functions()
        }
    }

    fn read_register(&mut self, key: u8, register: usize) -> (r: u32)
        requires
            old(self).wf(),
        ensures
            final(self).wf(),
            old(self).may_read(key, register as int, r, *final(self)),
    {
        let found: Option<usize> = match self.devices.get(&key) {
            Some(h) => Some(*h),
            None => None,
        };
        match found {
            Some(h) => {
                assert(self.devices().contains_key(key));
                self.functions[h].read_config_register(register)
            },
            None => 0xffff_ffff,
        }
    }

    /// Whether a register write may lead to `w`, and leave the bus as `after`:
    /// only the function that was written to can change.
    pub open spec fn may_write(
        &self,
        key: u8,
        register: int,
        offset: int,
        data: Seq<u8>,
        w: ConfigWrite,
        after: Self,
    ) -> bool {
        &&& after.devices() == self.devices()
        &&& after.ids() == self.ids()
        &&& if self.devices().contains_key(key) {
            let h = self.devices()[key] as int;
            &&& w.device == Some(self.devices()[key])
            &&& after.functions() == self.functions().update(h, after.functions()[h])
            &&& self.functions()[h].may_write(
                register,
                offset,
                data,
                w.moves@,
                w.barrier,
                after.functions()[h],
            )
        } else {
            w.is_nothing() && after.functions() == self.functions()
        }
    }

    fn write_register(&mut self, key: u8, register: usize, offset: u64, data: &[u8]) -> (w:
        ConfigWrite)
        requires
            old(self).wf(),
        ensures
            final(self).wf(),
            old(self).may_write(key, register as int, offset as int, data@, w, *final(self)),
    {
        let found: Option<usize> = match self.devices.get(&key) {
            Some(h) => Some(*h),
            None => None,
        };
        match found {
            Some(h) => {
                assert(self.devices().contains_key(key));
                let (moves, barrier): (Vec<BarReprogrammingParams>, Option<u64>) =
                    self.functions[h].write_config_register(register, offset, data);
                ConfigWrite { device: Some(h), moves, barrier }
            },
            None => ConfigWrite::nothing(),
        }
    }

    /// Takes in whether a window could be moved. If not, the function's own
    /// register is put back, so that it agrees with where the window is.
    pub fn bar_moved(&mut self, device: usize, params: &BarReprogrammingParams, moved: bool)
        requires
            old(self).wf(),
            device < old(self).functions().len(),
        ensures
            final(self).wf(),
            final(self).ids() == old(self).ids(),
            final(self).devices() == old(self).devices(),
            final(self).functions() == old(self).functions().update(
                device as int,
                final(self).functions()[device as int],
            ),
            if moved {
                final(self).functions()[device as int] == old(self).functions()[device as int]
            } else {
                old(self).functions()[device as int].may_restore(
                    *params,
                    final(self).functions()[device as int],
                )
            },
    {
        if !moved {
            self.functions[device].restore_bar_addr(params);
        }
    }
}

/// What a configuration write leads to: windows to move, one after the other,
/// and what to wait for. How each move went is handed to [`PciBus::bar_moved`].
pub struct ConfigWrite {
    /// The function that was written to, if there was one.
    pub device: Option<usize>,
    pub moves: Vec<BarReprogrammingParams>,
    pub barrier: Option<u64>,
}

impl ConfigWrite {
    /// Nothing was written to.
    pub open spec fn is_nothing(&self) -> bool {
        self.device is None && self.moves@.len() == 0 && self.barrier is None
    }

    fn nothing() -> (r: Self)
        ensures
            r.is_nothing(),
    {
        ConfigWrite { device: None, moves: Vec::new(), barrier: None }
    }
}

/// The first four bytes of a slice as a little-endian number: byteorder's
/// `LittleEndian::read_u32`, which panics on a shorter slice.
#[verifier::external_body]
fn read_u32(data: &[u8]) -> (r: u32)
    requires
        data@.len() >= 4,
    ensures
        r == crate::bytes::le32(data@, 0),
{
    LittleEndian::read_u32(data)
}

/// What part of configuration space an address stands for.
pub struct ConfigTarget {
    pub bus: int,
    pub device: int,
    pub function: int,
    pub register: int,
}

/// What a value of the port-mapped address register stands for.
pub open spec fn io_target(config_address: u32) -> ConfigTarget {
    ConfigTarget {
        bus: config_address as int / 0x1_0000 % 0x100,
        device: config_address as int / 0x800 % 0x20,
        function: config_address as int / 0x100 % 8,
        register: config_address as int / 4 % 0x40,
    }
}

/// What an offset into memory-mapped configuration space stands for.
pub open spec fn mmio_target(config_address: u32) -> ConfigTarget {
    ConfigTarget {
        bus: config_address as int / 0x10_0000 % 0x100,
        device: config_address as int / 0x8000 % 0x20,
        function: config_address as int / 0x1000 % 8,
        register: config_address as int / 4 % 0x400,
    }
}

fn parse_io_config_address(config_address: u32) -> (r: (usize, usize, usize, usize))
    ensures
        io_target(config_address) == (ConfigTarget {
            bus: r.0 as int,
            device: r.1 as int,
            function: r.2 as int,
            register: r.3 as int,
        }),
{
    let a: u32 = config_address;
    assert((a >> 16) & 0xff == a / 0x1_0000 % 0x100 && (a >> 11) & 0x1f == a / 0x800 % 0x20 && (a
        >> 8) & 7 == a / 0x100 % 8 && (a >> 2) & 0x3f == a / 4 % 0x40) by (bit_vector);
    (
        ((a >> 16) & 0xff) as usize,
        ((a >> 11) & 0x1f) as usize,
        ((a >> 8) & 7) as usize,
        ((a >> 2) & 0x3f) as usize,
    )
}

fn parse_mmio_config_address(config_address: u32) -> (r: (usize, usize, usize, usize))
    ensures
        mmio_target(config_address) == (ConfigTarget {
            bus: r.0 as int,
            device: r.1 as int,
            function: r.2 as int,
            register: r.3 as int,
        }),
{
    let a: u32 = config_address;
    assert((a >> 20) & 0xff == a / 0x10_0000 % 0x100 && (a >> 15) & 0x1f == a / 0x8000 % 0x20 && (a
        >> 12) & 7 == a / 0x1000 % 8 && (a >> 2) & 0x3ff == a / 4 % 0x400) by (bit_vector);
    (
        ((a >> 20) & 0xff) as usize,
        ((a >> 15) & 0x1f) as usize,
        ((a >> 12) & 7) as usize,
        ((a >> 2) & 0x3ff) as usize,
    )
}

/// The bytes that an access at `offset` gets of a register; ones if it goes
/// over the register's end.
pub open spec fn register_bytes(value: u32, offset: int, len: nat) -> Seq<u8> {
    let start = offset % 4;
    if start + len <= 4 {
        crate::bytes::u32_le(value).subrange(start, start + len)
    } else {
        Seq::new(len, |i: int| 0xffu8)
    }
}

fn fill_register_bytes(value: u32, offset: u64, data: &mut [u8])
    ensures
        final(data)@ == register_bytes(value, offset as int, old(data)@.len()),
{
    let start: usize = (offset % 4) as usize;
    let n: usize = data.len();
    if n > 4 - start {
        fill_byte(data, 0xff);
        return;
    }
    let mut i: usize = 0;
    while i < n
        invariant
            i <= n,
            n == data@.len(),
            n == old(data)@.len(),
            start + n <= 4,
            forall|k: int| 0 <= k < i ==> data@[k] == crate::bytes::u32_le(value)[start + k],
        decreases n - i,
    {
        data[i] = byte_of_u32(value, start + i);
        i = i + 1;
    }
    assert(data@ =~= crate::bytes::u32_le(value).subrange(start as int, start + n));
}

/// Port-mapped access to configuration space.
pub struct PciConfigIo {
    /// The address register.
    pub config_address: u32,
}

/// The address register after a write. A half is written at the offset that
/// counts halves.
pub open spec fn config_address_written(address: u32, offset: int, data: Seq<u8>) -> u32 {
    let b = crate::bytes::u32_le(address);
    if offset + data.len() > 4 {
        address
    } else if data.len() == 1 {
        crate::bytes::le32(b.update(offset, data[0]), 0)
    } else if data.len() == 2 {
        crate::bytes::le32(b.update(2 * offset, data[0]).update(2 * offset + 1, data[1]), 0)
    } else if data.len() == 4 {
        crate::bytes::le32(data, 0)
    } else {
        address
    }
}

impl PciConfigIo {
    /// An access point whose address register is clear.
    pub fn new() -> (r: Self)
        ensures
            r.config_address == 0,
    {
        PciConfigIo { config_address: 0 }
    }

    /// The position that the address register points at, if it is enabled and
    /// on the one bus there is.
    pub open spec fn target(&self) -> Option<(u8, int)> {
        let t = io_target(self.config_address);
        if self.config_address >= 0x8000_0000 && t.bus == 0 {
            Some((slot(t.device, t.function), t.register))
        } else {
            None
        }
    }

    fn parse_target(&self) -> (r: Option<(u8, usize)>)
        ensures
            match r {
                Some((k, reg)) => self.target() == Some((k, reg as int)),
                None => self.target() is None,
            },
    {
        let a: u32 = self.config_address;
        assert((a & 0x8000_0000 != 0) == (a >= 0x8000_0000)) by (bit_vector);
        if a & 0x8000_0000 == 0 {
            return None;
        }
        let (bus, device, function, register): (usize, usize, usize, usize) =
            parse_io_config_address(a);
        if bus != 0 {
            return None;
        }
        Some(((8 * device + function) as u8, register))
    }

    /// Reads the register that the address register points at; ones if it
    /// points at nothing.
    pub fn config_space_read<D: PciDevice>(&self, bus: &mut PciBus<D>) -> (r: u32)
        requires
            old(bus).wf(),
        ensures
            final(bus).wf(),
            match self.target() {
                Some((k, reg)) => old(bus).may_read(k, reg, r, *final(bus)),
                None => r == 0xffff_ffff && *final(bus) == *old(bus),
            },
    {
        match self.parse_target() {
            Some((k, register)) => bus.read_register(k, register),
            None => 0xffff_ffff,
        }
    }

    /// Writes to the register that the address register points at.
    pub fn config_space_write<D: PciDevice>(
        &self,
        bus: &mut PciBus<D>,
        offset: u64,
        data: &[u8],
    ) -> (w: ConfigWrite)
        requires
            old(bus).wf(),
        ensures
            final(bus).wf(),
            match self.target() {
                Some((k, reg)) if offset + data@.len() <= 4 => old(bus).may_write(
                    k,
                    reg,
                    offset as int,
                    data@,
                    w,
                    *final(bus),
                ),
                _ => w.is_nothing() && *final(bus) == *old(bus),
            },
    {
        if offset > 4 || data.len() > 4 - offset as usize {
            return ConfigWrite::nothing();
        }
        match self.parse_target() {
            Some((k, register)) => bus.write_register(k, register, offset, data),
            None => ConfigWrite::nothing(),
        }
    }

    /// Writes to the address register. A half at offset 2 would be beyond the
    /// register.
    fn set_config_address(&mut self, offset: u64, data: &[u8])
        requires
            !(offset == 2 && data@.len() == 2),
        ensures
            final(self).config_address == config_address_written(
                old(self).config_address,
                offset as int,
                data@,
            ),
    {
        let len: usize = data.len();
        if offset > 4 || len > 4 - offset as usize {
            return;
        }
        let a: u32 = self.config_address;
        if len == 1 {
            let r: u32 = with_byte_u32(a, offset as usize, data[0]);
            proof {
                crate::bytes::round_trips(0, r, 0);
            }
            self.config_address = r;
        } else if len == 2 {
            let at: usize = 2 * offset as usize;
            let low: u32 = with_byte_u32(a, at, data[0]);
            let r: u32 = with_byte_u32(low, at + 1, data[1]);
            proof {
                crate::bytes::round_trips(0, r, 0);
            }
            self.config_address = r;
        } else if len == 4 {
            self.config_address = read_u32(data);
        }
    }

    /// A read at an offset from the first port. The first four ports hold the
    /// address, the next four what it points at.
    pub fn read<D: PciDevice>(&self, bus: &mut PciBus<D>, offset: u64, data: &mut [u8])
        requires
            old(bus).wf(),
        ensures
            final(bus).wf(),
            match self.target() {
                Some((k, reg)) if 4 <= offset <= 7 => exists|v: u32|
                    {
                        &&& #[trigger] old(bus).may_read(k, reg, v, *final(bus))
                        &&& final(data)@ == register_bytes(v, offset as int, old(data)@.len())
                    },
                _ => {
                    &&& final(data)@ == register_bytes(
                        if offset <= 3 {
                            self.config_address
                        } else {
                            0xffff_ffff
                        },
                        offset as int,
                        old(data)@.len(),
                    )
                    &&& *final(bus) == *old(bus)
                },
            },
    {
        let value: u32 = if offset <= 3 {
            self.config_address
        } else if offset <= 7 {
            self.config_space_read(bus)
        } else {
            0xffff_ffff
        };
        fill_register_bytes(value, offset, data);
    }

    /// A write at an offset from the first port.
    pub fn write<D: PciDevice>(&mut self, bus: &mut PciBus<D>, offset: u64, data: &[u8]) -> (w:
        ConfigWrite)
        requires
            old(bus).wf(),
            !(offset == 2 && data@.len() == 2),
        ensures
            final(bus).wf(),
            final(self).config_address == if offset <= 3 {
                config_address_written(old(self).config_address, offset as int, data@)
            } else {
                old(self).config_address
            },
            match old(self).target() {
                Some((k, reg)) if 4 <= offset <= 7 && offset - 4 + data@.len() <= 4 => old(
                    bus,
                ).may_write(k, reg, offset - 4, data@, w, *final(bus)),
                _ => w.is_nothing() && *final(bus) == *old(bus),
            },
    {
        if offset <= 3 {
            self.set_config_address(offset, data);
            ConfigWrite::nothing()
        } else if offset <= 7 {
            self.config_space_write(bus, offset - 4, data)
        } else {
            ConfigWrite::nothing()
        }
    }
}

/// Memory-mapped access to configuration space.
pub struct PciConfigMmio;

impl PciConfigMmio {
    /// An access point.
    pub fn new() -> (r: Self) {
        PciConfigMmio
    }

    /// The position that an offset stands for, if it is on the one bus there
    /// is.
    pub open spec fn target(config_address: u32) -> Option<(u8, int)> {
        let t = mmio_target(config_address);
        if t.bus == 0 {
            Some((slot(t.device, t.function), t.register))
        } else {
            None
        }
    }

    fn config_space_read<D: PciDevice>(&self, bus: &mut PciBus<D>, config_address: u32) -> (r: u32)
        requires
            old(bus).wf(),
        ensures
            final(bus).wf(),
            match Self::target(config_address) {
                Some((k, reg)) => old(bus).may_read(k, reg, r, *final(bus)),
                None => r == 0xffff_ffff && *final(bus) == *old(bus),
            },
    {
        let (number, device, function, register): (usize, usize, usize, usize) =
            parse_mmio_config_address(config_address);
        if number != 0 {
            return 0xffff_ffff;
        }
        bus.read_register((8 * device + function) as u8, register)
    }

    fn config_space_write<D: PciDevice>(
        &self,
        bus: &mut PciBus<D>,
        config_address: u32,
        offset: u64,
        data: &[u8],
    ) -> (w: ConfigWrite)
        requires
            old(bus).wf(),
            offset < 4,
        ensures
            final(bus).wf(),
            match Self::target(config_address) {
                Some((k, reg)) if offset + data@.len() <= 4 => old(bus).may_write(
                    k,
                    reg,
                    offset as int,
                    data@,
                    w,
                    *final(bus),
                ),
                _ => w.is_nothing() && *final(bus) == *old(bus),
            },
    {
        if data.len() > 4 - offset as usize {
            return ConfigWrite::nothing();
        }
        let (number, device, function, register): (usize, usize, usize, usize) =
            parse_mmio_config_address(config_address);
        if number != 0 {
            return ConfigWrite::nothing();
        }
        bus.write_register((8 * device + function) as u8, register, offset, data)
    }

    /// A read. One that goes over a register's end does not reach a function.
    pub fn read<D: PciDevice>(&self, bus: &mut PciBus<D>, offset: u64, data: &mut [u8])
        requires
            old(bus).wf(),
        ensures
            final(bus).wf(),
            if offset % 4 + old(data)@.len() > 4 || offset > u32::MAX {
                &&& final(data)@ == Seq::new(old(data)@.len(), |i: int| 0xffu8)
                &&& *final(bus) == *old(bus)
            } else {
                match Self::target(offset as u32) {
                    Some((k, reg)) => exists|v: u32|
                        {
                            &&& #[trigger] old(bus).may_read(k, reg, v, *final(bus))
                            &&& final(data)@ == register_bytes(v, offset as int, old(data)@.len())
                        },
                    None => {
                        &&& final(data)@ == register_bytes(
                            0xffff_ffff,
                            offset as int,
                            old(data)@.len(),
                        )
                        &&& *final(bus) == *old(bus)
                    },
                }
            },
    {
        let start: usize = (offset % 4) as usize;
        if data.len() > 4 - start || offset > 0xffff_ffff {
            fill_byte(data, 0xff);
            return;
        }
        let value: u32 = self.config_space_read(bus, offset as u32);
        fill_register_bytes(value, offset, data);
    }

    /// A write. It completes without waiting for anything.
    pub fn write<D: PciDevice>(&self, bus: &mut PciBus<D>, offset: u64, data: &[u8]) -> (w:
        ConfigWrite)
        requires
            old(bus).wf(),
        ensures
            final(bus).wf(),
            w.barrier is None,
            if offset > u32::MAX || offset % 4 + data@.len() > 4 || Self::target(
                offset as u32,
            ) is None {
                w.is_nothing() && *final(bus) == *old(bus)
            } else {
                let (k, reg) = Self::target(offset as u32)->0;
                exists|b: Option<u64>|
                    #[trigger] old(bus).may_write(
                        k,
                        reg,
                        offset as int % 4,
                        data@,
                        (ConfigWrite { barrier: b, ..w }),
                        *final(bus),
                    )
            },
    {
        if offset > 0xffff_ffff {
            return ConfigWrite::nothing();
        }
        let w: ConfigWrite = self.config_space_write(bus, offset as u32, offset % 4, data);
        let r: ConfigWrite = ConfigWrite { device: w.device, moves: w.moves, barrier: None };
        proof {
            assert((ConfigWrite { barrier: w.barrier, ..r }) == w);
        }
        r
    }
}

/// Automatic allocation takes the lowest free number, so never one that is
/// reserved or allocated; what it takes is not free any more, and every other
/// number stays as it is.
pub proof fn allocation_takes_the_lowest_free(ids: Seq<DeviceIdState>)
    requires
        ids.len() == 32,
    ensures
        0 <= first_free(ids, 0) <= 32,
        forall|i: int| 0 <= i < first_free(ids, 0) ==> ids[i] != DeviceIdState::Free,
        first_free(ids, 0) < 32 ==> {
            let taken = ids.update(first_free(ids, 0), DeviceIdState::Allocated);
            &&& ids[first_free(ids, 0)] == DeviceIdState::Free
            &&& first_free(taken, 0) > first_free(ids, 0)
        },
{
    lemma_first_free(ids, 0);
    let free = first_free(ids, 0);
    if free < 32 {
        lemma_first_free(ids.update(free, DeviceIdState::Allocated), 0);
    }
}

proof fn lemma_first_free(ids: Seq<DeviceIdState>, from: int)
    requires
        0 <= from <= 32,
        ids.len() == 32,
    ensures
        from <= first_free(ids, from) <= 32,
        forall|i: int| from <= i < first_free(ids, from) ==> ids[i] != DeviceIdState::Free,
        first_free(ids, from) < 32 ==> ids[first_free(ids, from)] == DeviceIdState::Free,
    decreases 32 - from,
{
    if from < 32 && ids[from] != DeviceIdState::Free {
        lemma_first_free(ids, from + 1);
    }
}

/// As long as a number is free, automatic allocation finds one; the lowest
/// number that is freed is the next to be taken.
pub proof fn freed_ids_come_back(ids: Seq<DeviceIdState>, id: int)
    requires
        ids.len() == 32,
        0 <= id < 32,
    ensures
        ids[id] == DeviceIdState::Free ==> first_free(ids, 0) <= id,
        id < first_free(ids, 0) ==> first_free(ids.update(id, DeviceIdState::Free), 0) == id,
{
    let freed = ids.update(id, DeviceIdState::Free);
    lemma_first_free(ids, 0);
    lemma_first_free(freed, 0);
    assert(freed[id] == DeviceIdState::Free);
    let next = first_free(freed, 0);
    if id < first_free(ids, 0) && next < id {
        assert(freed[next] == ids[next]);
    }
}

/// Both ways to reach configuration space lead to the same register of the
/// same function.
pub proof fn both_ways_lead_to_the_same_register(device: u32, function: u32, register: u32)
    requires
        device < 32,
        function < 8,
        register < 64,
    ensures
        (PciConfigIo {
            config_address: (0x8000_0000 + device * 0x800 + function * 0x100 + register * 4) as u32,
        }).target() == Some((slot(device as int, function as int), register as int)),
        PciConfigMmio::target((device * 0x8000 + function * 0x1000 + register * 4) as u32) == Some(
            (slot(device as int, function as int), register as int),
        ),
{
    let a = 0x8000_0000 + device * 0x800 + function * 0x100 + register * 4;
    assert(a / 4 == 0x2000_0000 + device * 0x200 + function * 0x40 + register);
    assert(a / 0x100 == 0x80_0000 + device * 8 + function);
    assert(a / 0x800 == 0x10_0000 + device);
    assert(a / 0x1_0000 == 0x8000);
    let m = device * 0x8000 + function * 0x1000 + register * 4;
    assert(m / 4 == device * 0x2000 + function * 0x400 + register);
    assert(m / 0x1000 == device * 8 + function);
    assert(m / 0x8000 == device);
    assert(m / 0x10_0000 == 0);
}

/// An address that is not enabled reaches no function.
pub proof fn disabled_address_reaches_nothing(config_address: u32)
    requires
        config_address < 0x8000_0000,
    ensures
        (PciConfigIo { config_address }).target() is None,
{
}

/// What a function does on a write concerns no other function.
pub proof fn write_concerns_one_function<D: PciDevice>(
    before: PciBus<D>,
    after: PciBus<D>,
    key: u8,
    other: u8,
    register: int,
    offset: int,
    data: Seq<u8>,
    w: ConfigWrite,
)
    requires
        before.wf(),
        before.may_write(key, register, offset, data, w, after),
        before.devices().contains_key(other),
        before.devices().contains_key(key) ==> before.devices()[key] != before.devices()[other],
    ensures
        after.devices()[other] == before.devices()[other],
        after.functions()[after.devices()[other] as int]
            == before.functions()[before.devices()[other] as int],
{
}

/// No device number is given out twice: what was given out is refused when it is
/// asked for, and automatic allocation never gives it again, until it is freed.
/// A reserved number is only given to who asks for it, and is not reserved again.
pub proof fn numbers_are_given_once(
    ids: Seq<DeviceIdState>,
    after: Seq<DeviceIdState>,
    next: Seq<DeviceIdState>,
    asked: Option<u8>,
    given: Result<u8, PciRootError>,
    again: Option<u8>,
    r: Result<u8, PciRootError>,
)
    requires
        ids.len() == 32,
        allocates(ids, after, asked, given),
        allocates(after, next, again, r),
    ensures
        given matches Ok(id) ==> {
            &&& id < 32
            &&& asked is Some ==> asked == Some(id)
            &&& asked is None ==> ids[id as int] == DeviceIdState::Free
            &&& ids[id as int] != DeviceIdState::Allocated
            &&& r matches Ok(other) ==> other != id
            &&& again == Some(id) ==> r == Err::<u8, PciRootError>(
                PciRootError::AlreadyInUsePciDeviceSlot(id as usize),
            )
            &&& forall|i: int| 0 <= i < 32 && i != id ==> after[i] == ids[i]
        },
        given is Err ==> after == ids,
        asked is None && given is Err ==> forall|i: int|
            0 <= i < 32 ==> ids[i] != DeviceIdState::Free,
{
    lemma_first_free(ids, 0);
    lemma_first_free(after, 0);
}

/// A reserved number is passed over by automatic allocation, can be had by asking
/// for it, and cannot be reserved again. A freed number can be had and reserved.
pub proof fn reserved_numbers_are_passed_over(
    ids: Seq<DeviceIdState>,
    after: Seq<DeviceIdState>,
    next: Seq<DeviceIdState>,
    id: u8,
    freed: bool,
    reserved: Result<u8, PciRootError>,
    free: Result<(), PciRootError>,
    r: Result<u8, PciRootError>,
)
    requires
        ids.len() == 32,
        id < 32,
        if freed {
            frees(ids, after, id, free)
        } else {
            reserves(ids, after, id, reserved)
        },
    ensures
        freed ==> free is Ok,
        !freed ==> (reserved is Ok <==> ids[id as int] == DeviceIdState::Free),
        freed && allocates(after, next, Some(id), r) ==> r == Ok::<u8, PciRootError>(id),
        freed && reserves(after, next, id, r) ==> r == Ok::<u8, PciRootError>(id),
        !freed && reserved is Ok && allocates(after, next, None, r) ==> r
            != Ok::<u8, PciRootError>(id),
        !freed && reserved is Ok && allocates(after, next, Some(id), r) ==> r
            == Ok::<u8, PciRootError>(id),
        !freed && reserved is Ok && reserves(after, next, id, r) ==> r is Err,
{
    lemma_first_free(after, 0);
}

/// A function is found where it was added: the address of its device and
/// function number leads to it, both ways, for each of its registers. Every other
/// position leads where it led before. Once it is removed, no position leads to
/// it, and all others stay.
pub proof fn functions_are_found_where_they_are(
    devices: Map<u8, usize>,
    after: Map<u8, usize>,
    device_id: u8,
    function: u8,
    device: usize,
    register: u32,
    k: u8,
)
    requires
        device_id < 32,
        function < 8,
        register < 64,
        places(devices, after, device_id, function, device, Ok(())),
    ensures
        ({
            let io = PciConfigIo {
                config_address: (0x8000_0000 + device_id * 0x800 + function * 0x100 + register
                    * 4) as u32,
            };
            let mmio = PciConfigMmio::target(
                (device_id * 0x8000 + function * 0x1000 + register * 4) as u32,
            );
            &&& io.target() matches Some((at, reg)) && reg == register && after.contains_key(at)
                && after[at] == device
            &&& mmio == io.target()
        }),
        k != 8 * device_id + function ==> (after.contains_key(k) <==> devices.contains_key(k)) && (
        devices.contains_key(k) ==> after[k] == devices[k]),
        without_device(devices, device).contains_key(k) <==> devices.contains_key(k) && devices[k]
            != device,
        without_device(devices, device).contains_key(k) ==> without_device(devices, device)[k]
            == devices[k],
{
    both_ways_lead_to_the_same_register(device_id as u32, function as u32, register);
}

/// An access gets the bytes of a register from its own place on, lowest first,
/// and ones where it goes over the end.
pub proof fn register_bytes_come_in_order(value: u32, offset: int, len: nat, i: int)
    requires
        0 <= offset,
        0 <= i < len,
    ensures
        register_bytes(value, offset, len).len() == len,
        offset % 4 + len > 4 ==> register_bytes(value, offset, len)[i] == 0xff,
        offset % 4 + len <= 4 ==> {
            let k = offset % 4 + i;
            let byte = register_bytes(value, offset, len)[i];
            &&& k == 0 ==> byte == value % 0x100
            &&& k == 1 ==> byte == value / 0x100 % 0x100
            &&& k == 2 ==> byte == value / 0x1_0000 % 0x100
            &&& k == 3 ==> byte == value / 0x100_0000
        },
{
}

/// What is written to the address register is what is read of it.
pub proof fn address_register_reads_back(address: u32, offset: int, data: Seq<u8>)
    requires
        data.len() == 4 && offset == 0 || data.len() == 1 && 0 <= offset < 4 || data.len() == 2
            && offset == 0,
    ensures
        register_bytes(config_address_written(address, offset, data), offset, data.len()) == data,
{
    let b = crate::bytes::u32_le(address);
    let whole = if data.len() == 1 {
        b.update(offset, data[0])
    } else if data.len() == 2 {
        b.update(0, data[0]).update(1, data[1])
    } else {
        data
    };
    let padded = whole + whole;
    crate::bytes::read_then_written(padded, 0);
    assert(crate::bytes::le32(padded, 0) == crate::bytes::le32(whole, 0));
    assert(padded.subrange(0, 4) =~= whole);
    assert(register_bytes(config_address_written(address, offset, data), offset, data.len())
        =~= data);
}

} // verus!
