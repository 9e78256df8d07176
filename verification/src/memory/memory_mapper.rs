use vstd::prelude::*;

use super::{Addressable, Error, LinearMemory, OutputEvent, OutputMemory, RegionMemory};
use crate::word::Word;

verus! {

/// A device that the memory mapper can place in its address space.
#[derive(Debug)]
pub enum MappableDevice<const SIZE: usize> {
    LinearMem(LinearMemory<SIZE>),
    Output(OutputMemory<SIZE>),
    Region(RegionMemory<SIZE>),
}

/// The view of a mappable device: the view of the device inside.
pub enum DeviceView {
    LinearMem(Seq<u8>),
    Output(Seq<OutputEvent>),
    Region(Seq<u8>),
}

impl<const SIZE: usize> View for MappableDevice<SIZE> {
    type V = DeviceView;

    open spec fn view(&self) -> DeviceView {
        match self {
            MappableDevice::LinearMem(m) => DeviceView::LinearMem(m@),
            MappableDevice::Output(m) => DeviceView::Output(m@),
            MappableDevice::Region(m) => DeviceView::Region(m@),
        }
    }
}

impl<const SIZE: usize> MappableDevice<SIZE> {
    /// Wraps a linear memory.
    pub fn from_linear(memory: LinearMemory<SIZE>) -> (d: Self)
        ensures
            d@ == DeviceView::LinearMem(memory@),
    {
        MappableDevice::LinearMem(memory)
    }

    /// Wraps the memory of a region.
    pub fn from_region(memory: RegionMemory<SIZE>) -> (d: Self)
        ensures
            d@ == DeviceView::Region(memory@),
    {
        MappableDevice::Region(memory)
    }

    /// Wraps an output device.
    pub fn from_output(memory: OutputMemory<SIZE>) -> (d: Self)
        ensures
            d@ == DeviceView::Output(memory@),
    {
        MappableDevice::Output(memory)
    }
}

impl<const SIZE: usize> Addressable<SIZE> for MappableDevice<SIZE> {
    open spec fn model_read(mem: DeviceView, address: u16) -> Result<u8, Error<SIZE>> {
        match mem {
            DeviceView::LinearMem(m) => LinearMemory::<SIZE>::model_read(m, address),
            DeviceView::Output(m) => OutputMemory::<SIZE>::model_read(m, address),
            DeviceView::Region(m) => RegionMemory::<SIZE>::model_read(m, address),
        }
    }

    open spec fn model_write(mem: DeviceView, address: u16, byte: u8) -> (DeviceView, Result<(), Error<SIZE>>) {
        match mem {
            DeviceView::LinearMem(m) => {
                let (m2, r) = LinearMemory::<SIZE>::model_write(m, address, byte);
                (DeviceView::LinearMem(m2), r)
            },
            DeviceView::Output(m) => {
                let (m2, r) = OutputMemory::<SIZE>::model_write(m, address, byte);
                (DeviceView::Output(m2), r)
            },
            DeviceView::Region(m) => {
                let (m2, r) = RegionMemory::<SIZE>::model_write(m, address, byte);
                (DeviceView::Region(m2), r)
            },
        }
    }

    open spec fn model_read_word(mem: DeviceView, address: u16) -> Result<u16, Error<SIZE>> {
        match mem {
            DeviceView::LinearMem(m) => LinearMemory::<SIZE>::model_read_word(m, address),
            DeviceView::Output(m) => OutputMemory::<SIZE>::model_read_word(m, address),
            DeviceView::Region(m) => RegionMemory::<SIZE>::model_read_word(m, address),
        }
    }

    open spec fn model_write_word(mem: DeviceView, address: u16, word: u16) -> (DeviceView, Result<(), Error<SIZE>>) {
        match mem {
            DeviceView::LinearMem(m) => {
                let (m2, r) = LinearMemory::<SIZE>::model_write_word(m, address, word);
                (DeviceView::LinearMem(m2), r)
            },
            DeviceView::Output(m) => {
                let (m2, r) = OutputMemory::<SIZE>::model_write_word(m, address, word);
                (DeviceView::Output(m2), r)
            },
            DeviceView::Region(m) => {
                let (m2, r) = RegionMemory::<SIZE>::model_write_word(m, address, word);
                (DeviceView::Region(m2), r)
            },
        }
    }

    fn read(&self, address: Word<SIZE>) -> (r: Result<u8, Error<SIZE>>) {
        match self {
            MappableDevice::LinearMem(mem) => mem.read(address),
            MappableDevice::Output(mem) => mem.read(address),
            MappableDevice::Region(mem) => mem.read(address),
        }
    }

    fn write(&mut self, address: Word<SIZE>, byte: u8) -> (r: Result<(), Error<SIZE>>) {
        match self {
            MappableDevice::LinearMem(mem) => mem.write(address, byte),
            MappableDevice::Output(mem) => mem.write(address, byte),
            MappableDevice::Region(mem) => mem.write(address, byte),
        }
    }

    fn read_word(&self, address: Word<SIZE>) -> (r: Result<u16, Error<SIZE>>) {
        match self {
            MappableDevice::LinearMem(mem) => mem.read_word(address),
            MappableDevice::Output(mem) => mem.read_word(address),
            MappableDevice::Region(mem) => mem.read_word(address),
        }
    }

    fn write_word(&mut self, address: Word<SIZE>, word: u16) -> (r: Result<(), Error<SIZE>>) {
        match self {
            MappableDevice::LinearMem(mem) => mem.write_word(address, word),
            MappableDevice::Output(mem) => mem.write_word(address, word),
            MappableDevice::Region(mem) => mem.write_word(address, word),
        }
    }
}

/// How an address inside a region reaches its device.
#[derive(Debug, Copy, Clone, PartialEq, Eq, Structural)]
pub enum MappingMode {
    /// The device sees the address as it is.
    Direct,
    /// The device sees the address less the start of its region.
    Remap,
}

/// A device placed on the addresses `start..=end`.
#[derive(Debug)]
pub struct MappedRegion<const SIZE: usize> {
    device: MappableDevice<SIZE>,
    start: Word<SIZE>,
    end: Word<SIZE>,
    mapping_mode: MappingMode,
}

/// The view of a mapped region.
pub struct RegionView {
    pub device: DeviceView,
    pub start: u16,
    pub end: u16,
    pub mode: MappingMode,
}

impl<const SIZE: usize> View for MappedRegion<SIZE> {
    type V = RegionView;

    closed spec fn view(&self) -> RegionView {
        RegionView {
            device: self.device@,
            start: self.start.spec_value(),
            end: self.end.spec_value(),
            mode: self.mapping_mode,
        }
    }
}

/// The address space of the machine: devices placed on ranges of addresses.
/// Where ranges overlap, the device mapped last wins.
#[derive(Debug)]
pub struct MemoryMapper<const SIZE: usize> {
    /// the regions, the one mapped last first
    regions: Vec<MappedRegion<SIZE>>,
}

impl<const SIZE: usize> View for MemoryMapper<SIZE> {
    type V = Seq<RegionView>;

    closed spec fn view(&self) -> Seq<RegionView> {
        self.regions@.map_values(|r: MappedRegion<SIZE>| r@)
    }
}

/// Whether `address` lies in the region.
pub open spec fn region_holds(region: RegionView, address: u16) -> bool {
    region.start <= address <= region.end
}

/// The first region that holds `address`, counting from `from` on.
pub open spec fn find_region_from(regions: Seq<RegionView>, address: u16, from: int) -> Option<int>
    decreases regions.len() - from,
{
    if from < 0 || from >= regions.len() {
        None
    } else if region_holds(regions[from], address) {
        Some(from)
    } else {
        find_region_from(regions, address, from + 1)
    }
}

/// The region that answers for `address`: the first that holds it.
pub open spec fn find_region_spec(regions: Seq<RegionView>, address: u16) -> Option<int> {
    find_region_from(regions, address, 0)
}

/// The address that the device of a region sees for `address`.
pub open spec fn device_address(region: RegionView, address: u16) -> u16 {
    match region.mode {
        MappingMode::Remap => (address - region.start) as u16,
        MappingMode::Direct => address,
    }
}

proof fn lemma_find_region_from(regions: Seq<RegionView>, address: u16, from: int)
    requires
        0 <= from,
    ensures
        find_region_from(regions, address, from) matches Some(i) ==> from <= i < regions.len()
            && region_holds(regions[i], address),
    decreases regions.len() - from,
{
    if from < regions.len() && !region_holds(regions[from], address) {
        lemma_find_region_from(regions, address, from + 1);
    }
}

impl<const SIZE: usize> MemoryMapper<SIZE> {
    /// An address space with nothing mapped.
    pub fn new() -> (m: Self)
        ensures
            m@ == Seq::<RegionView>::empty(),
    {
        let m = MemoryMapper { regions: Vec::new() };
        assert(m@ =~= Seq::<RegionView>::empty());
        m
    }

    /// Places `device` on `start..=end`, in front of every region mapped before.
    /// Fails with `InvalidAddress` where `start` or `end` lies outside the memory.
    pub fn map(&mut self, device: MappableDevice<SIZE>, start: u16, end: u16, mapping_mode: MappingMode) -> (r: Result<(), Error<SIZE>>)
        ensures
            (start as int) >= SIZE ==> r == Err::<(), Error<SIZE>>(Error::InvalidAddress(start))
                && final(self)@ == old(self)@,
            (start as int) < SIZE && (end as int) >= SIZE ==> r == Err::<(), Error<SIZE>>(Error::InvalidAddress(end))
                && final(self)@ == old(self)@,
            (start as int) < SIZE && (end as int) < SIZE ==> r is Ok && final(self)@ == seq![RegionView {
                device: device@,
                start,
                end,
                mode: mapping_mode,
            }] + old(self)@,
    {
        let start = Word::try_from(start)?;
        let end = Word::try_from(end)?;
        let region = MappedRegion { device, start, end, mapping_mode };
        self.regions.insert(0, region);
        proof {
            assert(self@ =~= seq![region@] + old(self)@);
        }
        Ok(())
    }

    /// The index of the region that answers for `address`.
    fn find_region(&self, address: Word<SIZE>) -> (r: Option<usize>)
        ensures
            match r {
                Some(i) => find_region_spec(self@, address.spec_value()) == Some(i as int),
                None => find_region_spec(self@, address.spec_value()) is None,
            },
    {
        let a = address.value();
        let mut i: usize = 0;
        while i < self.regions.len()
            invariant
                i <= self.regions@.len(),
                self@.len() == self.regions@.len(),
                a == address.spec_value(),
                find_region_spec(self@, a) == find_region_from(self@, a, i as int),
            decreases self.regions@.len() - i,
        {
            let s = self.regions[i].start.value();
            let e = self.regions[i].end.value();
            assert(self@[i as int] == self.regions@[i as int]@);
            if s <= a && a <= e {
                return Some(i);
            }
            i = i + 1;
        }
        None
    }

    /// The address that the device of region `i` sees for `address`.
    fn device_word(&self, i: usize, address: Word<SIZE>) -> (w: Word<SIZE>)
        requires
            i < self@.len(),
            region_holds(self@[i as int], address.spec_value()),
        ensures
            w.spec_value() == device_address(self@[i as int], address.spec_value()),
    {
        let a = address.value();
        assert(self@[i as int] == self.regions@[i as int]@);
        match self.regions[i].mapping_mode {
            MappingMode::Remap => {
                let start = self.regions[i].start.value();
                match Word::try_from(a - start) {
                    Ok(w) => w,
                    Err(_) => address,
                }
            },
            MappingMode::Direct => address,
        }
    }
}

/// The regions after the device of region `i` has become `device`.
pub open spec fn with_device(regions: Seq<RegionView>, i: int, device: DeviceView) -> Seq<RegionView> {
    regions.update(i, RegionView { device, ..regions[i] })
}

impl<const SIZE: usize> Addressable<SIZE> for MemoryMapper<SIZE> {
    open spec fn model_read(mem: Seq<RegionView>, address: u16) -> Result<u8, Error<SIZE>> {
        match find_region_spec(mem, address) {
            None => Err(Error::UnmappedAddress(Word::spec_new(address))),
            Some(i) => MappableDevice::<SIZE>::model_read(mem[i].device, device_address(mem[i], address)),
        }
    }

    open spec fn model_write(mem: Seq<RegionView>, address: u16, byte: u8) -> (Seq<RegionView>, Result<(), Error<SIZE>>) {
        match find_region_spec(mem, address) {
            None => (mem, Err(Error::UnmappedAddress(Word::spec_new(address)))),
            Some(i) => {
                let (d, r) = MappableDevice::<SIZE>::model_write(mem[i].device, device_address(mem[i], address), byte);
                (with_device(mem, i, d), r)
            },
        }
    }

    open spec fn model_read_word(mem: Seq<RegionView>, address: u16) -> Result<u16, Error<SIZE>> {
        match find_region_spec(mem, address) {
            None => Err(Error::UnmappedAddress(Word::spec_new(address))),
            Some(i) => MappableDevice::<SIZE>::model_read_word(mem[i].device, device_address(mem[i], address)),
        }
    }

    open spec fn model_write_word(mem: Seq<RegionView>, address: u16, word: u16) -> (Seq<RegionView>, Result<(), Error<SIZE>>) {
        match find_region_spec(mem, address) {
            None => (mem, Err(Error::UnmappedAddress(Word::spec_new(address)))),
            Some(i) => {
                let (d, r) = MappableDevice::<SIZE>::model_write_word(mem[i].device, device_address(mem[i], address), word);
                (with_device(mem, i, d), r)
            },
        }
    }

    fn read(&self, address: Word<SIZE>) -> (r: Result<u8, Error<SIZE>>) {
        proof {
            Word::<SIZE>::lemma_spec_new(address);
        }
        let Some(i) = self.find_region(address) else {
            return Err(Error::UnmappedAddress(address));
        };
        proof {
            lemma_find_region_from(self@, address.spec_value(), 0);
        }
        let a = self.device_word(i, address);
        assert(self@[i as int] == self.regions@[i as int]@);
        self.regions[i].device.read(a)
    }

    fn write(&mut self, address: Word<SIZE>, byte: u8) -> (r: Result<(), Error<SIZE>>) {
        proof {
            Word::<SIZE>::lemma_spec_new(address);
        }
        let Some(i) = self.find_region(address) else {
            return Err(Error::UnmappedAddress(address));
        };
        proof {
            lemma_find_region_from(self@, address.spec_value(), 0);
        }
        let a = self.device_word(i, address);
        let mut region = self.regions.remove(i);
        let r = region.device.write(a, byte);
        self.regions.insert(i, region);
        proof {
            assert(self@ =~= with_device(old(self)@, i as int, region.device@));
        }
        r
    }

    fn read_word(&self, address: Word<SIZE>) -> (r: Result<u16, Error<SIZE>>) {
        proof {
            Word::<SIZE>::lemma_spec_new(address);
        }
        let Some(i) = self.find_region(address) else {
            return Err(Error::UnmappedAddress(address));
        };
        proof {
            lemma_find_region_from(self@, address.spec_value(), 0);
        }
        let a = self.device_word(i, address);
        assert(self@[i as int] == self.regions@[i as int]@);
        self.regions[i].device.read_word(a)
    }

    fn write_word(&mut self, address: Word<SIZE>, word: u16) -> (r: Result<(), Error<SIZE>>) {
        proof {
            Word::<SIZE>::lemma_spec_new(address);
        }
        let Some(i) = self.find_region(address) else {
            return Err(Error::UnmappedAddress(address));
        };
        proof {
            lemma_find_region_from(self@, address.spec_value(), 0);
        }
        let a = self.device_word(i, address);
        let mut region = self.regions.remove(i);
        let r = region.device.write_word(a, word);
        self.regions.insert(i, region);
        proof {
            assert(self@ =~= with_device(old(self)@, i as int, region.device@));
        }
        r
    }
}

} // verus!
