use vstd::prelude::*;
use crate::cpu::Cpu;
use crate::memory::{Memory, SIZE, ram_cell, ram_claims};
use crate::ppu::Ppu;
use crate::state::CpuState;

verus! {

/// A device that may answer reads on the address bus.
pub trait BusRead: View {
    /// What a device in state `state` answers at `addr`; `None` where it
    /// does not claim the address.
    spec fn read_spec(state: Self::V, addr: u16) -> Option<u8>;

    fn read(&self, addr: u16) -> (r: Option<u8>)
        ensures
            r == Self::read_spec(self@, addr),
    ;
}

/// A device that may accept writes from the address bus.
pub trait BusWrite: View {
    /// The state of a device in state `state` after it accepts `value` at
    /// `addr`; `None` where it does not claim the address.
    spec fn write_spec(state: Self::V, addr: u16, value: u8) -> Option<Self::V>;

    fn write(&mut self, addr: u16, value: u8) -> (accepted: bool)
        ensures
            match Self::write_spec(old(self)@, addr, value) {
                Some(state) => accepted && final(self)@ == state,
                None => !accepted && final(self)@ == old(self)@,
            },
    ;
}

/// The closed set of device kinds that can be attached to the bus.
pub enum Device {
    Memory(Memory),
}

/// The state of an attached device.
pub enum DeviceView {
    Memory(Seq<u8>),
}

impl View for Device {
    type V = DeviceView;

    open spec fn view(&self) -> DeviceView {
        match self {
            Device::Memory(m) => DeviceView::Memory(m@),
        }
    }
}

impl BusRead for Device {
    open spec fn read_spec(state: DeviceView, addr: u16) -> Option<u8> {
        match state {
            DeviceView::Memory(m) => Memory::read_spec(m, addr),
        }
    }

    fn read(&self, addr: u16) -> (r: Option<u8>) {
        match self {
            Device::Memory(m) => m.read(addr),
        }
    }
}

impl BusWrite for Device {
    open spec fn write_spec(state: DeviceView, addr: u16, value: u8) -> Option<DeviceView> {
        match state {
            DeviceView::Memory(m) => match Memory::write_spec(m, addr, value) {
                Some(n) => Some(DeviceView::Memory(n)),
                None => None,
            },
        }
    }

    fn write(&mut self, addr: u16, value: u8) -> (accepted: bool) {
        match self {
            Device::Memory(m) => m.write(addr, value),
        }
    }
}

/// A 16-bit word from its low and high bytes.
pub open spec fn word(lo: u8, hi: u8) -> u16 {
    (hi * 256 + lo) as u16
}

/// `x` reduced to 16 bits, as address arithmetic on the bus wraps.
pub open spec fn wrap16(x: int) -> u16 {
    (x % 65536) as u16
}

pub proof fn lemma_wrapping_add16(x: u16, y: u16)
    ensures
        x.wrapping_add(y) == wrap16(x + y),
{
}

pub proof fn lemma_wrap16_period(v: int)
    ensures
        wrap16(v + 65536) == wrap16(v),
{
    assert((v + 65536) % 65536 == v % 65536) by (nonlinear_arith);
}

pub proof fn lemma_word_bits(lo: u8, hi: u8)
    ensures
        ((hi as u16) << 8) | (lo as u16) == word(lo, hi),
        (lo as u16) | ((hi as u16) << 8) == word(lo, hi),
        word(lo, hi) / 256 == hi,
        word(lo, hi) % 256 == lo,
{
    assert(((hi as u16) << 8) | (lo as u16) == (hi * 256 + lo) as u16) by (bit_vector);
    assert((lo as u16) | ((hi as u16) << 8) == (hi * 256 + lo) as u16) by (bit_vector);
}

/// The model of the bus: the attached devices, and the handles of those
/// that take part in reads and in writes, in the order they are tried.
pub struct BusView {
    pub devices: Seq<DeviceView>,
    pub readers: Seq<usize>,
    pub writers: Seq<usize>,
}

impl BusView {
    /// The wiring of the console: one work RAM holding `ram`, the only
    /// reader and the only writer.
    pub open spec fn ram_only(ram: Seq<u8>) -> BusView {
        BusView { devices: seq![DeviceView::Memory(ram)], readers: seq![0], writers: seq![0] }
    }

    /// What the readers from position `i` on answer at `addr`: the first
    /// that claims it, or 0 where none does. A handle that names no device
    /// claims nothing.
    #[verifier::opaque]
    pub open spec fn read_from(self, i: int, addr: u16) -> u8
        decreases self.readers.len() - i,
    {
        if i < 0 || i >= self.readers.len() {
            0
        } else {
            let h = self.readers[i] as int;
            if h < self.devices.len() && Device::read_spec(self.devices[h], addr) is Some {
                Device::read_spec(self.devices[h], addr)->0
            } else {
                self.read_from(i + 1, addr)
            }
        }
    }

    /// The byte that a read of `addr` returns.
    pub open spec fn read(self, addr: u16) -> u8 {
        self.read_from(0, addr)
    }

    /// The little-endian word at `addr` and the address after it.
    pub open spec fn read_word(self, addr: u16) -> u16 {
        word(self.read(addr), self.read(wrap16(addr + 1)))
    }

    /// The devices after a write of `value` at `addr` has been offered to
    /// the writers from position `i` on: the first that claims the address
    /// takes it, and no other device changes.
    #[verifier::opaque]
    pub open spec fn write_from(self, i: int, addr: u16, value: u8) -> Seq<DeviceView>
        decreases self.writers.len() - i,
    {
        if i < 0 || i >= self.writers.len() {
            self.devices
        } else {
            let h = self.writers[i] as int;
            if h < self.devices.len() && Device::write_spec(self.devices[h], addr, value) is Some {
                self.devices.update(h, Device::write_spec(self.devices[h], addr, value)->0)
            } else {
                self.write_from(i + 1, addr, value)
            }
        }
    }

    /// The bus after a write of `value` at `addr`.
    pub open spec fn write(self, addr: u16, value: u8) -> BusView {
        BusView { devices: self.write_from(0, addr, value), ..self }
    }

    /// Whether the first reader and the first writer are one and the same
    /// work RAM, so that every access in 0x0000..=0x1FFF reaches it.
    pub open spec fn ram_first(self) -> bool {
        &&& self.readers.len() > 0
        &&& self.writers.len() > 0
        &&& self.readers[0] == self.writers[0]
        &&& self.readers[0] < self.devices.len()
        &&& self.devices[self.readers[0] as int] is Memory
        &&& self.devices[self.readers[0] as int]->Memory_0.len() == SIZE
    }

    /// Whether some reader claims `addr`.
    pub open spec fn read_claimed(self, addr: u16) -> bool {
        exists|i: int|
            0 <= i < self.readers.len() && self.readers[i] < self.devices.len()
                && (#[trigger] Device::read_spec(self.devices[self.readers[i] as int], addr)) is Some
    }

    /// Whether some writer claims `addr`.
    pub open spec fn write_claimed(self, addr: u16, value: u8) -> bool {
        exists|i: int|
            0 <= i < self.writers.len() && self.writers[i] < self.devices.len()
                && (#[trigger] Device::write_spec(
                self.devices[self.writers[i] as int],
                addr,
                value,
            )) is Some
    }
}

/// Where the work RAM comes first on the bus, a read in 0x0000..=0x1FFF
/// returns what the last write to the same RAM cell stored: a write reaches
/// every mirror of its address and no other cell.
pub proof fn lemma_ram_write_read(bus: BusView, addr: u16, other: u16, value: u8)
    requires
        bus.ram_first(),
        ram_claims(addr),
        ram_claims(other),
    ensures
        bus.write(addr, value).ram_first(),
        bus.write(addr, value).read(other) == if ram_cell(addr) == ram_cell(other) {
            value
        } else {
            bus.read(other)
        },
{
    reveal(BusView::read_from);
    reveal(BusView::write_from);
    assert(addr & 0x07FF < 0x0800) by (bit_vector);
    assert(other & 0x07FF < 0x0800) by (bit_vector);
}

/// Where the work RAM comes first on the bus, a value written below 0x0800
/// reads back at the address and at its three mirrors 0x0800, 0x1000 and
/// 0x1800 above it.
pub proof fn lemma_ram_mirrors(bus: BusView, addr: u16, value: u8)
    requires
        bus.ram_first(),
        addr < 0x0800,
    ensures
        forall|k: u16|
            k < 4 ==> #[trigger] bus.write(addr, value).read((addr + 0x0800 * k) as u16) == value,
{
    assert forall|k: u16| k < 4 implies #[trigger] bus.write(addr, value).read(
        (addr + 0x0800 * k) as u16,
    ) == value by {
        let mirror = (addr + 0x0800 * k) as u16;
        assert(mirror & 0x07FF == addr & 0x07FF && mirror <= 0x1FFF) by (bit_vector)
            requires
                addr < 0x0800,
                k < 4,
                mirror == (addr + 0x0800 * k) as u16,
        ;
        lemma_ram_write_read(bus, addr, mirror, value);
    }
}

proof fn lemma_unclaimed_read_from(bus: BusView, i: int, addr: u16)
    requires
        0 <= i,
        !bus.read_claimed(addr),
    ensures
        bus.read_from(i, addr) == 0,
    decreases bus.readers.len() - i,
{
    reveal(BusView::read_from);
    if i < bus.readers.len() {
        let h = bus.readers[i] as int;
        if h < bus.devices.len() {
            assert(!(Device::read_spec(bus.devices[bus.readers[i] as int], addr) is Some));
        }
        lemma_unclaimed_read_from(bus, i + 1, addr);
    }
}

proof fn lemma_unclaimed_write_from(bus: BusView, i: int, addr: u16, value: u8)
    requires
        0 <= i,
        !bus.write_claimed(addr, value),
    ensures
        bus.write_from(i, addr, value) == bus.devices,
    decreases bus.writers.len() - i,
{
    reveal(BusView::write_from);
    if i < bus.writers.len() {
        let h = bus.writers[i] as int;
        if h < bus.devices.len() {
            assert(!(Device::write_spec(bus.devices[bus.writers[i] as int], addr, value) is Some));
        }
        lemma_unclaimed_write_from(bus, i + 1, addr, value);
    }
}

/// A read that no device claims returns 0, and a write that no device
/// claims changes nothing on the bus.
pub proof fn lemma_unmapped(bus: BusView, addr: u16, value: u8)
    ensures
        !bus.read_claimed(addr) ==> bus.read(addr) == 0,
        !bus.write_claimed(addr, value) ==> bus.write(addr, value) == bus,
{
    if !bus.read_claimed(addr) {
        lemma_unclaimed_read_from(bus, 0, addr);
    }
    if !bus.write_claimed(addr, value) {
        lemma_unclaimed_write_from(bus, 0, addr, value);
    }
}

/// On the console's bus, which holds only the work RAM, every address above
/// 0x1FFF reads as 0 and ignores writes.
pub proof fn lemma_console_unmapped(ram: Seq<u8>, addr: u16, value: u8)
    requires
        addr > 0x1FFF,
    ensures
        BusView::ram_only(ram).read(addr) == 0,
        BusView::ram_only(ram).write(addr, value) == BusView::ram_only(ram),
{
    let bus = BusView::ram_only(ram);
    assert(!bus.read_claimed(addr));
    assert(!bus.write_claimed(addr, value));
    lemma_unmapped(bus, addr, value);
}

/// Routes reads and writes on the 16-bit address space to the attached
/// devices. Devices live in one arena; readers and writers hold handles
/// into it, in the order in which they are asked.
pub struct BusInterface {
    pub devices: Vec<Device>,
    pub readers: Vec<usize>,
    pub writers: Vec<usize>,
}

impl View for BusInterface {
    type V = BusView;

    open spec fn view(&self) -> BusView {
        BusView {
            devices: self.devices@.map_values(|d: Device| d@),
            readers: self.readers@,
            writers: self.writers@,
        }
    }
}

impl BusInterface {
    /// A bus with no device attached.
    pub fn new() -> (r: BusInterface)
        ensures
            r@.devices.len() == 0,
            r@.readers.len() == 0,
            r@.writers.len() == 0,
    {
        BusInterface { devices: vec![], readers: vec![], writers: vec![] }
    }

    /// The byte that the first reader to claim `addr` answers; 0 where none does.
    pub fn read(&self, addr: u16) -> (r: u8)
        ensures
            r == self@.read(addr),
    {
        proof {
            reveal(BusView::read_from);
        }
        let mut i: usize = 0;
        while i < self.readers.len()
            invariant
                i <= self.readers@.len(),
                self@.read_from(i as int, addr) == self@.read(addr),
            decreases self.readers@.len() - i,
        {
            proof {
                reveal(BusView::read_from);
            }
            let h = self.readers[i];
            if h < self.devices.len() {
                if let Some(value) = self.devices[h].read(addr) {
                    return value;
                }
            }
            i += 1;
        }
        0
    }

    /// The little-endian word at `addr` and `addr + 1`; the second address
    /// wraps to 0 after 0xFFFF.
    pub fn read_word(&self, addr: u16) -> (r: u16)
        ensures
            r == self@.read_word(addr),
    {
        let lo = self.read(addr) as u16;
        let hi = self.read(addr.wrapping_add(1)) as u16;
        proof {
            lemma_word_bits(lo as u8, hi as u8);
        }
        (hi << 8) | lo
    }

    /// Offers `value` at `addr` to the writers in order; the first that
    /// claims the address takes it. Where none does, nothing changes.
    pub fn write(&mut self, addr: u16, value: u8)
        ensures
            final(self)@ == old(self)@.write(addr, value),
    {
        proof {
            reveal(BusView::write_from);
        }
        let ghost start = self@;
        let mut i: usize = 0;
        while i < self.writers.len()
            invariant
                i <= self.writers@.len(),
                self@ == start,
                start == old(self)@,
                start.write_from(i as int, addr, value) == start.write_from(0, addr, value),
            decreases self.writers@.len() - i,
        {
            proof {
                reveal(BusView::write_from);
            }
            let h = self.writers[i];
            if h < self.devices.len() {
                assert(start.devices[h as int] == self.devices@[h as int]@);
                let accepted = self.devices[h].write(addr, value);
                if accepted {
                    assert(self@.devices =~= start.write_from(0, addr, value));
                    assert(self@ == start.write(addr, value));
                    return;
                }
                assert(self@.devices =~= start.devices);
            }
            i += 1;
        }
        assert(self@ == start.write(addr, value));
    }
}

/// The console: the processor, which drives the bus and the devices on it,
/// and the picture unit clocked beside it.
pub struct Bus {
    pub cpu: Cpu,
    pub ppu: Ppu,
}

impl Bus {
    /// A console whose bus holds a cleared work RAM and nothing else.
    pub fn new() -> (r: Bus)
        ensures
            r.cpu@ == CpuState::power_on(BusView::ram_only(Seq::new(SIZE as nat, |i: int| 0u8))),
    {
        let mut interface = BusInterface::new();
        let ram = Memory::new();
        interface.devices.push(Device::Memory(ram));
        // the work RAM answers reads and takes writes
        interface.readers.push(0);
        interface.writers.push(0);
        let cpu = Cpu::new(interface);
        let ppu = Ppu::new();
        assert(cpu@.bus.devices =~= seq![DeviceView::Memory(Seq::new(SIZE as nat, |i: int| 0u8))]);
        assert(cpu@.bus.readers =~= seq![0usize]);
        assert(cpu@.bus.writers =~= seq![0usize]);
        Bus { cpu, ppu }
    }

    pub fn read(&self, addr: u16) -> (r: u8)
        ensures
            r == self.cpu@.bus.read(addr),
    {
        self.cpu.bus.read(addr)
    }

    pub fn write(&mut self, addr: u16, value: u8)
        ensures
            final(self).cpu@ == (CpuState { bus: old(self).cpu@.bus.write(addr, value), ..old(self).cpu@ }),
            final(self).ppu == old(self).ppu,
    {
        self.cpu.bus.write(addr, value)
    }
}

} // verus!
