use std::rc::Rc;
use vstd::prelude::*;

pub mod cfgmgr32;
pub mod ecam;
pub mod error;
pub mod ids;
pub mod io_port;
pub mod parser;

use crate::error::Error;

verus! {

// Byte offsets of the common configuration-space header fields.
pub const OFFSET_VENDOR_ID: u8 = 0x00;
pub const OFFSET_DEVICE_ID: u8 = 0x02;
pub const OFFSET_COMMAND: u8 = 0x04;
pub const OFFSET_STATUS: u8 = 0x06;
pub const OFFSET_REVISION_ID: u8 = 0x08;
pub const OFFSET_PROG_INTF: u8 = 0x09;
pub const OFFSET_SUB_CLASS: u8 = 0x0A;
pub const OFFSET_BASE_CLASS: u8 = 0x0B;
pub const OFFSET_CACHE_LINE_SIZE: u8 = 0x0C;
pub const OFFSET_MASTER_LATENCY_TIMER: u8 = 0x0D;
pub const OFFSET_HEADER_TYPE: u8 = 0x0E;
pub const OFFSET_BIST: u8 = 0x0F;
pub const OFFSET_CAPABILITIES_POINTER: u8 = 0x34;
pub const OFFSET_INTERRUPT_LINE: u8 = 0x3C;
pub const OFFSET_INTERRUPT_PIN: u8 = 0x3D;

// Byte offsets of the type-0 (endpoint) header fields.
pub const OFFSET_TYPE0_BAR0: u8 = 0x10;
pub const OFFSET_TYPE0_BAR1: u8 = 0x14;
pub const OFFSET_TYPE0_BAR2: u8 = 0x18;
pub const OFFSET_TYPE0_BAR3: u8 = 0x1C;
pub const OFFSET_TYPE0_BAR4: u8 = 0x20;
pub const OFFSET_TYPE0_BAR5: u8 = 0x24;
pub const OFFSET_TYPE0_CARDBUS: u8 = 0x28;
pub const OFFSET_TYPE0_SUBSYSTEM_VENDOR_ID: u8 = 0x2C;
pub const OFFSET_TYPE0_SUBSYSTEM_ID: u8 = 0x2E;
pub const OFFSET_TYPE0_EXPANSION: u8 = 0x30;

// Byte offsets of the type-1 (bridge) header fields.
pub const OFFSET_TYPE1_BAR0: u8 = 0x10;
pub const OFFSET_TYPE1_BAR1: u8 = 0x14;
pub const OFFSET_TYPE1_PRIMARY_BUS_NUM: u8 = 0x18;
pub const OFFSET_TYPE1_SECONDARY_BUS_NUM: u8 = 0x19;
pub const OFFSET_TYPE1_SUBORDINATE_BUS_NUM: u8 = 0x1A;
pub const OFFSET_TYPE1_SECONDARY_LATENCY_TIMER: u8 = 0x1B;
pub const OFFSET_TYPE1_EXPANSION: u8 = 0x38;

// Layout of a raw base-address-register word.
pub const OFFSET_BAR_TYPE_MASK: u32 = 0x01;
pub const OFFSET_BAR_TYPE_IO: u32 = 0x01;

pub const OFFSET_BAR_ADDRSPACE_MASK: u32 = 0x06;
pub const OFFSET_BAR_ADDRSPACE_16BIT: u32 = 0x02;
pub const OFFSET_BAR_ADDRSPACE_32BIT: u32 = 0x00;
pub const OFFSET_BAR_ADDRSPACE_64BIT: u32 = 0x04;

pub const OFFSET_BAR_PREFETCH_MASK: u32 = 0x08;
pub const OFFSET_BAR_PREFETCH_ENABLE: u32 = 0x08;

/// Vendor or device identifier that marks an address with no device behind it.
pub const NOT_USED: u16 = 0xFFFF;

/// True when bit `bit` of `v` is set.
pub open spec fn bit16(v: u16, bit: u16) -> bool {
    (v >> bit) & 1 == 1
}

/// True when bit `bit` of `v` is set.
pub open spec fn bit8(v: u8, bit: u8) -> bool {
    (v >> bit) & 1 == 1
}

/// The command register: bit-packed control flags of the common header.
#[derive(Clone, Copy, Debug, PartialEq, Eq, Structural)]
pub struct Command(pub u16);

impl Command {
    pub fn io_space_enable(&self) -> (r: bool)
        ensures
            r == bit16(self.0, 0),
    {
        self.get_bool(0)
    }

    pub fn memory_space_enable(&self) -> (r: bool)
        ensures
            r == bit16(self.0, 1),
    {
        self.get_bool(1)
    }

    pub fn bus_master_enable(&self) -> (r: bool)
        ensures
            r == bit16(self.0, 2),
    {
        self.get_bool(2)
    }

    pub fn special_cycle_enable(&self) -> (r: bool)
        ensures
            r == bit16(self.0, 3),
    {
        self.get_bool(3)
    }

    pub fn memory_write_and_invalidate(&self) -> (r: bool)
        ensures
            r == bit16(self.0, 4),
    {
        self.get_bool(4)
    }

    pub fn vga_palette_snoop(&self) -> (r: bool)
        ensures
            r == bit16(self.0, 5),
    {
        self.get_bool(5)
    }

    pub fn parity_error_response(&self) -> (r: bool)
        ensures
            r == bit16(self.0, 6),
    {
        self.get_bool(6)
    }

    pub fn idsel_stepping_wait_cycle_control(&self) -> (r: bool)
        ensures
            r == bit16(self.0, 7),
    {
        self.get_bool(7)
    }

    pub fn serr_enable(&self) -> (r: bool)
        ensures
            r == bit16(self.0, 8),
    {
        self.get_bool(8)
    }

    pub fn fast_back_to_back_transactions_enable(&self) -> (r: bool)
        ensures
            r == bit16(self.0, 9),
    {
        self.get_bool(9)
    }

    pub fn interrupt_disable(&self) -> (r: bool)
        ensures
            r == bit16(self.0, 10),
    {
        self.get_bool(10)
    }

    fn get_bool(&self, bit: u16) -> (r: bool)
        requires
            bit < 16,
        ensures
            r == bit16(self.0, bit),
    {
        (self.0 >> bit) & 1 == 1
    }
}

/// The status register: bit-packed condition flags of the common header.
#[derive(Clone, Copy, Debug, PartialEq, Eq, Structural)]
pub struct Status(pub u16);

impl Status {
    pub fn interrupt_status(&self) -> (r: bool)
        ensures
            r == bit16(self.0, 3),
    {
        self.get_bool(3)
    }

    pub fn capabilities_list(&self) -> (r: bool)
        ensures
            r == bit16(self.0, 4),
    {
        self.get_bool(4)
    }

    pub fn mhz_66_capable(&self) -> (r: bool)
        ensures
            r == bit16(self.0, 5),
    {
        self.get_bool(5)
    }

    pub fn user_definable_features(&self) -> (r: bool)
        ensures
            r == bit16(self.0, 6),
    {
        self.get_bool(6)
    }

    pub fn fast_back_to_back_transactions_capable(&self) -> (r: bool)
        ensures
            r == bit16(self.0, 7),
    {
        self.get_bool(7)
    }

    pub fn master_data_parity_error(&self) -> (r: bool)
        ensures
            r == bit16(self.0, 8),
    {
        self.get_bool(8)
    }

    /// The two-bit DEVSEL timing field.
    pub fn devsel_timing(&self) -> (r: u8)
        ensures
            r == ((self.0 >> 9) & 0x0003) as u8,
    {
        ((self.0 >> 9) & 0x0003) as u8
    }

    pub fn signaled_target_abort(&self) -> (r: bool)
        ensures
            r == bit16(self.0, 11),
    {
        self.get_bool(11)
    }

    pub fn received_target_abort(&self) -> (r: bool)
        ensures
            r == bit16(self.0, 12),
    {
        self.get_bool(12)
    }

    pub fn received_master_abort(&self) -> (r: bool)
        ensures
            r == bit16(self.0, 13),
    {
        self.get_bool(13)
    }

    pub fn signaled_system_error(&self) -> (r: bool)
        ensures
            r == bit16(self.0, 14),
    {
        self.get_bool(14)
    }

    pub fn detected_parity_error(&self) -> (r: bool)
        ensures
            r == bit16(self.0, 15),
    {
        self.get_bool(15)
    }

    fn get_bool(&self, bit: u16) -> (r: bool)
        requires
            bit < 16,
        ensures
            r == bit16(self.0, bit),
    {
        (self.0 >> bit) & 1 == 1
    }
}

/// The class-code triple (base class, sub class, programming interface).
#[derive(Clone, Copy, Debug, PartialEq, Eq, Structural)]
pub struct ClassCode(pub u8, pub u8, pub u8);

impl ClassCode {
    pub fn base_class(&self) -> (r: u8)
        ensures
            r == self.0,
    {
        self.0
    }

    pub fn sub_class(&self) -> (r: u8)
        ensures
            r == self.1,
    {
        self.1
    }

    pub fn prog_if(&self) -> (r: u8)
        ensures
            r == self.2,
    {
        self.2
    }
}

/// The header-type register: low seven bits select the header layout,
/// the high bit marks a multi-function device.
#[derive(Clone, Copy, Debug, PartialEq, Eq, Structural)]
pub struct HeaderType(pub u8);

impl HeaderType {
    /// The layout kind: the low seven bits of the register.
    pub open spec fn layout(self) -> u8 {
        self.0 & 0x7F
    }

    /// True when the layout is the type-0 (endpoint) header.
    pub fn type0(&self) -> (r: bool)
        ensures
            r == (self.layout() == 0),
    {
        self.get_type() == 0
    }

    /// True when the layout is the type-1 (bridge) header.
    pub fn type1(&self) -> (r: bool)
        ensures
            r == (self.layout() == 1),
    {
        self.get_type() == 1
    }

    /// True when the device exposes more than one function.
    pub fn multi_function_device(&self) -> (r: bool)
        ensures
            r == bit8(self.0, 7),
    {
        (self.0 >> 7) & 1 == 1
    }

    fn get_type(&self) -> (r: u8)
        ensures
            r == self.layout(),
    {
        self.0 & 0x7F
    }
}

/// The register-access capability: one handle bound to a single device
/// address, serving byte, word and dword reads from its configuration
/// space. `read16` and `read32` return little-endian values. The three
/// spec functions fix what each read returns, so that every decoding
/// step can be stated as a function of the handle.
pub trait Method: Sized {
    /// What a one-byte read at `offset` returns.
    spec fn read8_spec(&self, offset: u8) -> u8;

    /// What a two-byte read at `offset` returns.
    spec fn read16_spec(&self, offset: u8) -> u16;

    /// What a four-byte read at `offset` returns.
    spec fn read32_spec(&self, offset: u8) -> u32;

    fn read8(&self, offset: u8) -> (r: u8)
        ensures
            r == self.read8_spec(offset),
    ;

    fn read16(&self, offset: u8) -> (r: u16)
        ensures
            r == self.read16_spec(offset),
    ;

    fn read32(&self, offset: u8) -> (r: u32)
        ensures
            r == self.read32_spec(offset),
    ;
}

/// Relies on std's Rc::as_ref: the returned reference leads to the value
/// the handle shares.
#[verifier::external_body]
pub(crate) fn rc_as_ref<T>(rc: &Rc<T>) -> (r: &T)
    ensures
        *r == *rc,
{
    Rc::as_ref(rc)
}

/// Relies on std's Rc::clone: the clone shares the same value.
#[verifier::external_body]
pub(crate) fn rc_clone<T>(rc: &Rc<T>) -> (r: Rc<T>)
    ensures
        r == *rc,
{
    Rc::clone(rc)
}

/// True when reads through `m` report a device behind the address:
/// neither identifier word is the unused sentinel.
pub open spec fn device_present<T: Method>(m: T) -> bool {
    &&& m.read16_spec(OFFSET_VENDOR_ID) != NOT_USED
    &&& m.read16_spec(OFFSET_DEVICE_ID) != NOT_USED
}

/// How each field of a decoded common header relates to the reads that
/// produced it.
pub open spec fn is_config_of<T: Method>(c: PciConfig<T>, m: T) -> bool {
    &&& *c.method == m
    &&& c.vendor_id == m.read16_spec(OFFSET_VENDOR_ID)
    &&& c.device_id == m.read16_spec(OFFSET_DEVICE_ID)
    &&& c.command == Command(m.read16_spec(OFFSET_COMMAND))
    &&& c.status == Status(m.read16_spec(OFFSET_STATUS))
    &&& c.revision_id == m.read8_spec(OFFSET_REVISION_ID)
    &&& c.class_code == ClassCode(
        m.read8_spec(OFFSET_BASE_CLASS),
        m.read8_spec(OFFSET_SUB_CLASS),
        m.read8_spec(OFFSET_PROG_INTF),
    )
    &&& c.cache_line_size == m.read8_spec(OFFSET_CACHE_LINE_SIZE)
    &&& c.master_latency_timer == m.read8_spec(OFFSET_MASTER_LATENCY_TIMER)
    &&& c.header_type == HeaderType(m.read8_spec(OFFSET_HEADER_TYPE))
    &&& c.bist == m.read8_spec(OFFSET_BIST)
    &&& c.capabilities_pointer == m.read8_spec(OFFSET_CAPABILITIES_POINTER)
    &&& c.interrupt_line == m.read8_spec(OFFSET_INTERRUPT_LINE)
    &&& c.interrupt_pin == m.read8_spec(OFFSET_INTERRUPT_PIN)
}

/// Reads the common configuration-space header through `method` and
/// decodes it. Yields nothing exactly when either identifier word is the
/// unused sentinel; otherwise every field of the document is the value
/// the handle reports at that field's offset.
pub fn get_pci_config<T: Method>(method: T) -> (r: Option<PciConfig<T>>)
    ensures
        r is Some <==> device_present(method),
        r matches Some(c) ==> is_config_of(c, method),
{
    let vendor_id = method.read16(OFFSET_VENDOR_ID);
    if vendor_id == NOT_USED {
        return None;
    }

    let device_id = method.read16(OFFSET_DEVICE_ID);
    if device_id == NOT_USED {
        return None;
    }

    let command = method.read16(OFFSET_COMMAND);
    let status = method.read16(OFFSET_STATUS);
    let revision_id = method.read8(OFFSET_REVISION_ID);
    let prog_if = method.read8(OFFSET_PROG_INTF);
    let sub_class = method.read8(OFFSET_SUB_CLASS);
    let base_class = method.read8(OFFSET_BASE_CLASS);
    let cache_line_size = method.read8(OFFSET_CACHE_LINE_SIZE);
    let master_latency_timer = method.read8(OFFSET_MASTER_LATENCY_TIMER);
    let header_type = method.read8(OFFSET_HEADER_TYPE);
    let bist = method.read8(OFFSET_BIST);
    let capabilities_pointer = method.read8(OFFSET_CAPABILITIES_POINTER);
    let interrupt_line = method.read8(OFFSET_INTERRUPT_LINE);
    let interrupt_pin = method.read8(OFFSET_INTERRUPT_PIN);

    let config = PciConfig {
        method: Rc::new(method),
        vendor_id,
        device_id,
        command: Command(command),
        status: Status(status),
        revision_id,
        class_code: ClassCode(base_class, sub_class, prog_if),
        cache_line_size,
        master_latency_timer,
        header_type: HeaderType(header_type),
        bist,
        capabilities_pointer,
        interrupt_line,
        interrupt_pin,
    };

    Some(config)
}

/// An immutable snapshot of the 64-byte common header for one device
/// address, decoded from reads through `method`. The document keeps a
/// shared handle to the access method so that the type-specific header
/// and the capability chain can be read on demand.
#[derive(Clone, Debug)]
pub struct PciConfig<T: Method> {
    pub method: Rc<T>,
    pub vendor_id: u16,
    pub device_id: u16,
    pub command: Command,
    pub status: Status,
    pub revision_id: u8,
    pub class_code: ClassCode,
    pub cache_line_size: u8,
    pub master_latency_timer: u8,
    pub header_type: HeaderType,
    pub bist: u8,
    pub capabilities_pointer: u8,
    pub interrupt_line: u8,
    pub interrupt_pin: u8,
}

impl<T: Method> PciConfig<T> {
    pub fn vendor_id(&self) -> (r: u16)
        ensures
            r == self.vendor_id,
    {
        self.vendor_id
    }

    pub fn device_id(&self) -> (r: u16)
        ensures
            r == self.device_id,
    {
        self.device_id
    }

    pub fn command(&self) -> (r: Command)
        ensures
            r == self.command,
    {
        self.command
    }

    pub fn status(&self) -> (r: Status)
        ensures
            r == self.status,
    {
        self.status
    }

    pub fn revision_id(&self) -> (r: u8)
        ensures
            r == self.revision_id,
    {
        self.revision_id
    }

    pub fn class_code(&self) -> (r: ClassCode)
        ensures
            r == self.class_code,
    {
        self.class_code
    }

    pub fn cache_line_size(&self) -> (r: u8)
        ensures
            r == self.cache_line_size,
    {
        self.cache_line_size
    }

    pub fn master_latency_timer(&self) -> (r: u8)
        ensures
            r == self.master_latency_timer,
    {
        self.master_latency_timer
    }

    pub fn header_type(&self) -> (r: HeaderType)
        ensures
            r == self.header_type,
    {
        self.header_type
    }

    pub fn bist(&self) -> (r: u8)
        ensures
            r == self.bist,
    {
        self.bist
    }

    pub fn capabilities_pointer(&self) -> (r: u8)
        ensures
            r == self.capabilities_pointer,
    {
        self.capabilities_pointer
    }

    pub fn interrupt_line(&self) -> (r: u8)
        ensures
            r == self.interrupt_line,
    {
        self.interrupt_line
    }

    pub fn interrupt_pin(&self) -> (r: u8)
        ensures
            r == self.interrupt_pin,
    {
        self.interrupt_pin
    }
}

/// How each field of a decoded type-0 (endpoint) header relates to the
/// reads that produced it.
pub open spec fn is_type0_of<T: Method>(t0: PciConfigType0, m: T) -> bool {
    &&& t0.bar0 == m.read32_spec(OFFSET_TYPE0_BAR0)
    &&& t0.bar1 == m.read32_spec(OFFSET_TYPE0_BAR1)
    &&& t0.bar2 == m.read32_spec(OFFSET_TYPE0_BAR2)
    &&& t0.bar3 == m.read32_spec(OFFSET_TYPE0_BAR3)
    &&& t0.bar4 == m.read32_spec(OFFSET_TYPE0_BAR4)
    &&& t0.bar5 == m.read32_spec(OFFSET_TYPE0_BAR5)
    &&& t0.cardbus_cis_pointer == m.read32_spec(OFFSET_TYPE0_CARDBUS)
    &&& t0.subsystem_vendor_id == m.read16_spec(OFFSET_TYPE0_SUBSYSTEM_VENDOR_ID)
    &&& t0.subsystem_id == m.read16_spec(OFFSET_TYPE0_SUBSYSTEM_ID)
    &&& t0.expansion_rom == m.read32_spec(OFFSET_TYPE0_EXPANSION)
}

/// How each field of a decoded type-1 (bridge) header relates to the
/// reads that produced it.
pub open spec fn is_type1_of<T: Method>(t1: PciConfigType1, m: T) -> bool {
    &&& t1.bar0 == m.read32_spec(OFFSET_TYPE1_BAR0)
    &&& t1.bar1 == m.read32_spec(OFFSET_TYPE1_BAR1)
    &&& t1.primary_bus_number == m.read8_spec(OFFSET_TYPE1_PRIMARY_BUS_NUM)
    &&& t1.secondary_bus_number == m.read8_spec(OFFSET_TYPE1_SECONDARY_BUS_NUM)
    &&& t1.subordinate_bus_number == m.read8_spec(OFFSET_TYPE1_SUBORDINATE_BUS_NUM)
    &&& t1.secondary_latency_timer == m.read8_spec(OFFSET_TYPE1_SECONDARY_LATENCY_TIMER)
    &&& t1.expansion_rom == m.read32_spec(OFFSET_TYPE1_EXPANSION)
}

impl<T: Method> PciConfig<T> {
    /// Reads the type-0 header lazily through the shared handle. Yields
    /// nothing, without error, exactly when the header layout kind is
    /// not 0: that is an expected outcome, not a fault.
    pub fn get_type0_header(&self) -> (r: Option<PciConfigType0>)
        ensures
            r is Some <==> self.header_type.layout() == 0,
            r matches Some(t0) ==> is_type0_of(t0, *self.method),
    {
        if !self.header_type().type0() {
            return None;
        }

        let m = rc_as_ref(&self.method);
        let bar0 = m.read32(OFFSET_TYPE0_BAR0);
        let bar1 = m.read32(OFFSET_TYPE0_BAR1);
        let bar2 = m.read32(OFFSET_TYPE0_BAR2);
        let bar3 = m.read32(OFFSET_TYPE0_BAR3);
        let bar4 = m.read32(OFFSET_TYPE0_BAR4);
        let bar5 = m.read32(OFFSET_TYPE0_BAR5);
        let cardbus_cis_pointer = m.read32(OFFSET_TYPE0_CARDBUS);
        let subsystem_vendor_id = m.read16(OFFSET_TYPE0_SUBSYSTEM_VENDOR_ID);
        let subsystem_id = m.read16(OFFSET_TYPE0_SUBSYSTEM_ID);
        let expansion_rom = m.read32(OFFSET_TYPE0_EXPANSION);

        let t0 = PciConfigType0 {
            bar0,
            bar1,
            bar2,
            bar3,
            bar4,
            bar5,
            cardbus_cis_pointer,
            subsystem_vendor_id,
            subsystem_id,
            expansion_rom,
        };

        Some(t0)
    }

    /// Reads the type-1 header lazily through the shared handle. Yields
    /// nothing, without error, exactly when the header layout kind is
    /// not 1.
    pub fn get_type1_header(&self) -> (r: Option<PciConfigType1>)
        ensures
            r is Some <==> self.header_type.layout() == 1,
            r matches Some(t1) ==> is_type1_of(t1, *self.method),
    {
        if !self.header_type().type1() {
            return None;
        }

        let m = rc_as_ref(&self.method);
        let bar0 = m.read32(OFFSET_TYPE1_BAR0);
        let bar1 = m.read32(OFFSET_TYPE1_BAR1);
        let primary_bus_number = m.read8(OFFSET_TYPE1_PRIMARY_BUS_NUM);
        let secondary_bus_number = m.read8(OFFSET_TYPE1_SECONDARY_BUS_NUM);
        let subordinate_bus_number = m.read8(OFFSET_TYPE1_SUBORDINATE_BUS_NUM);
        let secondary_latency_timer = m.read8(OFFSET_TYPE1_SECONDARY_LATENCY_TIMER);
        let expansion_rom = m.read32(OFFSET_TYPE1_EXPANSION);

        let t1 = PciConfigType1 {
            bar0,
            bar1,
            primary_bus_number,
            secondary_bus_number,
            subordinate_bus_number,
            secondary_latency_timer,
            expansion_rom,
        };

        Some(t1)
    }
}

/// The raw fields of the type-0 (endpoint) header.
#[derive(Clone, Debug, PartialEq, Eq, Structural)]
pub struct PciConfigType0 {
    pub bar0: u32,
    pub bar1: u32,
    pub bar2: u32,
    pub bar3: u32,
    pub bar4: u32,
    pub bar5: u32,
    pub cardbus_cis_pointer: u32,
    pub subsystem_vendor_id: u16,
    pub subsystem_id: u16,
    pub expansion_rom: u32,
}

impl PciConfigType0 {
    pub fn bar0(&self) -> (r: u32)
        ensures
            r == self.bar0,
    {
        self.bar0
    }

    pub fn bar1(&self) -> (r: u32)
        ensures
            r == self.bar1,
    {
        self.bar1
    }

    pub fn bar2(&self) -> (r: u32)
        ensures
            r == self.bar2,
    {
        self.bar2
    }

    pub fn bar3(&self) -> (r: u32)
        ensures
            r == self.bar3,
    {
        self.bar3
    }

    pub fn bar4(&self) -> (r: u32)
        ensures
            r == self.bar4,
    {
        self.bar4
    }

    pub fn bar5(&self) -> (r: u32)
        ensures
            r == self.bar5,
    {
        self.bar5
    }

    pub fn cardbus_cis_pointer(&self) -> (r: u32)
        ensures
            r == self.cardbus_cis_pointer,
    {
        self.cardbus_cis_pointer
    }

    pub fn subsystem_vendor_id(&self) -> (r: u16)
        ensures
            r == self.subsystem_vendor_id,
    {
        self.subsystem_vendor_id
    }

    pub fn subsystem_id(&self) -> (r: u16)
        ensures
            r == self.subsystem_id,
    {
        self.subsystem_id
    }

    pub fn expansion_rom(&self) -> (r: u32)
        ensures
            r == self.expansion_rom,
    {
        self.expansion_rom
    }
}

/// The raw fields of the type-1 (bridge) header. `secondary_bus_number`
/// is the pivot for recursive bus enumeration.
#[derive(Clone, Debug, PartialEq, Eq, Structural)]
pub struct PciConfigType1 {
    pub bar0: u32,
    pub bar1: u32,
    pub primary_bus_number: u8,
    pub secondary_bus_number: u8,
    pub subordinate_bus_number: u8,
    pub secondary_latency_timer: u8,
    pub expansion_rom: u32,
}

impl PciConfigType1 {
    pub fn bar0(&self) -> (r: u32)
        ensures
            r == self.bar0,
    {
        self.bar0
    }

    pub fn bar1(&self) -> (r: u32)
        ensures
            r == self.bar1,
    {
        self.bar1
    }

    pub fn parity_error_response(&self) -> (r: u8)
        ensures
            r == self.primary_bus_number,
    {
        self.primary_bus_number
    }

    pub fn secondary_bus_number(&self) -> (r: u8)
        ensures
            r == self.secondary_bus_number,
    {
        self.secondary_bus_number
    }

    pub fn subordinate_bus_number(&self) -> (r: u8)
        ensures
            r == self.subordinate_bus_number,
    {
        self.subordinate_bus_number
    }

    pub fn secondary_latency_timer(&self) -> (r: u8)
        ensures
            r == self.secondary_latency_timer,
    {
        self.secondary_latency_timer
    }

    pub fn expansion_rom(&self) -> (r: u32)
        ensures
            r == self.expansion_rom,
    {
        self.expansion_rom
    }
}

/// The decoding of one raw base-address-register word pair. Bit 0 of the
/// low word selects I/O space; for memory space, bits 1-2 select the
/// address width and bit 3 the prefetchable flag. A 64-bit memory window
/// takes its high half from the following slot's word.
pub open spec fn spec_bar_decode(bar: u32, nbar: u32) -> PciBaseAddress {
    if bar & OFFSET_BAR_TYPE_MASK == OFFSET_BAR_TYPE_IO {
        PciBaseAddress {
            bar: (bar & 0xFFFF_FFFC) as u64,
            io_space: true,
            b16: false,
            b32: false,
            b64: false,
            prefetchable: false,
        }
    } else {
        PciBaseAddress {
            bar: if bar & OFFSET_BAR_ADDRSPACE_MASK == OFFSET_BAR_ADDRSPACE_64BIT {
                (((nbar as u64) << 32) + ((bar & 0xFFFF_FFF0) as u64)) as u64
            } else {
                (bar & 0xFFFF_FFF0) as u64
            },
            io_space: false,
            b16: bar & OFFSET_BAR_ADDRSPACE_MASK == OFFSET_BAR_ADDRSPACE_16BIT,
            b32: bar & OFFSET_BAR_ADDRSPACE_MASK == OFFSET_BAR_ADDRSPACE_32BIT,
            b64: bar & OFFSET_BAR_ADDRSPACE_MASK == OFFSET_BAR_ADDRSPACE_64BIT,
            prefetchable: bar & OFFSET_BAR_PREFETCH_MASK == OFFSET_BAR_PREFETCH_ENABLE,
        }
    }
}

/// The decoded base-address list of a run of raw BAR slot words. Each
/// step decodes the front word, pairing it with the following word (or 0
/// at the end of the run); a 64-bit decoding consumes the following slot
/// as its high half, so that slot yields no entry of its own.
pub open spec fn spec_bars(ws: Seq<u32>) -> Seq<PciBaseAddress>
    decreases ws.len(),
{
    if ws.len() == 0 {
        Seq::empty()
    } else {
        let d = spec_bar_decode(ws[0], if ws.len() >= 2 { ws[1] } else { 0 });
        if d.b64 {
            seq![d] + spec_bars(if ws.len() >= 2 { ws.skip(2) } else { Seq::empty() })
        } else {
            seq![d] + spec_bars(ws.skip(1))
        }
    }
}

/// One decoded base-address register: the effective address with its
/// type bits masked off, and the window's kind flags.
#[derive(Clone, Copy, Debug, Default, PartialEq, Eq, Structural)]
pub struct PciBaseAddress {
    pub bar: u64,
    pub io_space: bool,
    pub b16: bool,
    pub b32: bool,
    pub b64: bool,
    pub prefetchable: bool,
}

impl PciBaseAddress {
    /// Decodes one raw word pair. Deciding by the same two words always
    /// yields the same decoded attributes: the result is exactly
    /// `spec_bar_decode(bar, nbar)`.
    pub fn from(bar: u32, nbar: u32) -> (r: PciBaseAddress)
        ensures
            r == spec_bar_decode(bar, nbar),
    {
        if (bar & OFFSET_BAR_TYPE_MASK) == OFFSET_BAR_TYPE_IO {
            PciBaseAddress {
                bar: (bar & 0xFFFF_FFFC) as u64,
                io_space: true,
                b16: false,
                b32: false,
                b64: false,
                prefetchable: false,
            }
        } else {
            let low = (bar & 0xFFFF_FFF0) as u64;
            let address = if (bar & OFFSET_BAR_ADDRSPACE_MASK) == OFFSET_BAR_ADDRSPACE_64BIT {
                proof {
                    assert((nbar as u64) << 32 <= 0xFFFF_FFFF_0000_0000) by (bit_vector);
                    assert(bar & 0xFFFF_FFF0 <= 0xFFFF_FFF0) by (bit_vector);
                }
                ((nbar as u64) << 32) + low
            } else {
                low
            };
            PciBaseAddress {
                bar: address,
                io_space: false,
                b16: (bar & OFFSET_BAR_ADDRSPACE_MASK) == OFFSET_BAR_ADDRSPACE_16BIT,
                b32: (bar & OFFSET_BAR_ADDRSPACE_MASK) == OFFSET_BAR_ADDRSPACE_32BIT,
                b64: (bar & OFFSET_BAR_ADDRSPACE_MASK) == OFFSET_BAR_ADDRSPACE_64BIT,
                prefetchable: (bar & OFFSET_BAR_PREFETCH_MASK) == OFFSET_BAR_PREFETCH_ENABLE,
            }
        }
    }

    pub fn bar(&self) -> (r: u64)
        ensures
            r == self.bar,
    {
        self.bar
    }

    pub fn io_space(&self) -> (r: bool)
        ensures
            r == self.io_space,
    {
        self.io_space
    }

    pub fn b16(&self) -> (r: bool)
        ensures
            r == self.b16,
    {
        self.b16
    }

    pub fn b32(&self) -> (r: bool)
        ensures
            r == self.b32,
    {
        self.b32
    }

    pub fn b64(&self) -> (r: bool)
        ensures
            r == self.b64,
    {
        self.b64
    }

    pub fn prefetchable(&self) -> (r: bool)
        ensures
            r == self.prefetchable,
    {
        self.prefetchable
    }
}

/// Decoding one raw word pair twice yields identical decoded attributes:
/// any two decodings of the same pair agree on every field.
pub proof fn lemma_bar_decode_idempotent(w0: u32, w1: u32, a: PciBaseAddress, b: PciBaseAddress)
    requires
        a == spec_bar_decode(w0, w1),
        b == spec_bar_decode(w0, w1),
    ensures
        a.bar == b.bar,
        a.io_space == b.io_space,
        a.b16 == b.b16,
        a.b32 == b.b32,
        a.b64 == b.b64,
        a.prefetchable == b.prefetchable,
{
}

/// When the front slot word marks a 64-bit memory window, the decoded
/// list starts with the single combined entry built from that word and
/// the following word, and decoding resumes at the slot after both: the
/// high-half word contributes no entry of its own.
pub proof fn lemma_bar64_lookahead(ws: Seq<u32>)
    requires
        ws.len() >= 2,
        spec_bar_decode(ws[0], ws[1]).b64,
    ensures
        spec_bars(ws).len() >= 1,
        spec_bars(ws)[0] == spec_bar_decode(ws[0], ws[1]),
        spec_bars(ws) == seq![spec_bar_decode(ws[0], ws[1])] + spec_bars(ws.skip(2)),
{
}

impl PciConfigType0 {
    /// Decodes the six BAR slots into the list of base addresses that
    /// are actually present, applying the 64-bit lookahead-and-skip
    /// rule across adjacent slots.
    pub fn bars(&self) -> (r: Vec<PciBaseAddress>)
        ensures
            r@ == spec_bars(
                seq![self.bar0, self.bar1, self.bar2, self.bar3, self.bar4, self.bar5],
            ),
    {
        let ws: Vec<u32> = vec![self.bar0, self.bar1, self.bar2, self.bar3, self.bar4, self.bar5];
        let ghost full: Seq<u32> = ws@;
        let mut addrs: Vec<PciBaseAddress> = Vec::new();
        let mut i: usize = 0;

        proof {
            assert(full.skip(0) =~= full);
        }

        while i < 6
            invariant
                ws@ == full,
                full.len() == 6,
                i <= 6,
                spec_bars(full) == addrs@ + spec_bars(full.skip(i as int)),
            decreases 6 - i,
        {
            let nbar = if i + 1 < 6 {
                ws[i + 1]
            } else {
                0
            };
            let addr = PciBaseAddress::from(ws[i], nbar);
            let step: usize = if addr.b64() {
                2
            } else {
                1
            };
            proof {
                let rest = full.skip(i as int);
                assert(rest[0] == full[i as int]);
                if i + 1 < 6 {
                    assert(rest[1] == full[i as int + 1]);
                }
                if addr.b64 {
                    if i + 2 <= 6 {
                        assert(rest.skip(2) =~= full.skip(i as int + 2));
                    } else {
                        assert(rest.len() == 1);
                        assert(spec_bars(rest) =~= seq![addr] + spec_bars(Seq::<u32>::empty()));
                    }
                } else {
                    assert(rest.skip(1) =~= full.skip(i as int + 1));
                }
                assert(addrs@.push(addr) =~= addrs@ + seq![addr]);
            }
            addrs.push(addr);
            i = if i + step > 6 {
                6
            } else {
                i + step
            };
            proof {
                if i == 6 {
                    assert(full.skip(6) =~= Seq::<u32>::empty());
                }
            }
        }

        proof {
            assert(full.skip(6) =~= Seq::<u32>::empty());
            assert(addrs@ + Seq::<PciBaseAddress>::empty() =~= addrs@);
        }

        addrs
    }
}

/// The known capability kinds, by their one-byte identifier.
#[derive(Clone, Copy, Debug, PartialEq, Eq, Structural)]
pub enum CapabilityId {
    Null,
    Pm,
    Agp,
    Vpd,
    SlotId,
    Msi,
    CompatPciHotSwap,
    PciX,
    HyperTransport,
    VendorSpecific,
    DebugPort,
    CompatPciCrc,
    PciHotPlug,
    PciBridgeSubVendorId,
    Agp8x,
    SecureDevice,
    PciE,
    MsiX,
    SataConfig,
    AdvanedFeature,
    EnhancedAllocation,
    FlatteningPortalBridge,
}

/// The capability kind a raw identifier byte maps to, or nothing for a
/// value outside the known range.
pub open spec fn spec_capability_id(id: u8) -> Option<CapabilityId> {
    if id == 0x00 {
        Some(CapabilityId::Null)
    } else if id == 0x01 {
        Some(CapabilityId::Pm)
    } else if id == 0x02 {
        Some(CapabilityId::Agp)
    } else if id == 0x03 {
        Some(CapabilityId::Vpd)
    } else if id == 0x04 {
        Some(CapabilityId::SlotId)
    } else if id == 0x05 {
        Some(CapabilityId::Msi)
    } else if id == 0x06 {
        Some(CapabilityId::CompatPciHotSwap)
    } else if id == 0x07 {
        Some(CapabilityId::PciX)
    } else if id == 0x08 {
        Some(CapabilityId::HyperTransport)
    } else if id == 0x09 {
        Some(CapabilityId::VendorSpecific)
    } else if id == 0x0A {
        Some(CapabilityId::DebugPort)
    } else if id == 0x0B {
        Some(CapabilityId::CompatPciCrc)
    } else if id == 0x0C {
        Some(CapabilityId::PciHotPlug)
    } else if id == 0x0D {
        Some(CapabilityId::PciBridgeSubVendorId)
    } else if id == 0x0E {
        Some(CapabilityId::Agp8x)
    } else if id == 0x0F {
        Some(CapabilityId::SecureDevice)
    } else if id == 0x10 {
        Some(CapabilityId::PciE)
    } else if id == 0x11 {
        Some(CapabilityId::MsiX)
    } else if id == 0x12 {
        Some(CapabilityId::SataConfig)
    } else if id == 0x13 {
        Some(CapabilityId::AdvanedFeature)
    } else if id == 0x14 {
        Some(CapabilityId::EnhancedAllocation)
    } else if id == 0x15 {
        Some(CapabilityId::FlatteningPortalBridge)
    } else {
        None
    }
}

/// The (identifier, next pointer) pair held by the capability node at
/// byte offset `ptr`: the low byte and the second byte of the dword read
/// there.
pub open spec fn spec_cap_at<T: Method>(m: T, ptr: u8) -> (u8, u8) {
    (
        (m.read32_spec(ptr) & 0x0000_00FF) as u8,
        ((m.read32_spec(ptr) & 0x0000_FF00) >> 8) as u8,
    )
}

/// The capability chain starting at offset `ptr`: the nodes visited by
/// following each node's next pointer, in link order, stopping at a next
/// pointer of 0 or after `fuel` nodes.
pub open spec fn spec_cap_chain<T: Method>(m: T, ptr: u8, fuel: nat) -> Seq<(u8, u8)>
    decreases fuel,
{
    if ptr == 0 || fuel == 0 {
        Seq::empty()
    } else {
        seq![spec_cap_at(m, ptr)] + spec_cap_chain(m, spec_cap_at(m, ptr).1, (fuel - 1) as nat)
    }
}

/// True when the chain starting at `ptr` reaches a next pointer of 0
/// within `fuel` links.
pub open spec fn cap_chain_terminates<T: Method>(m: T, ptr: u8, fuel: nat) -> bool
    decreases fuel,
{
    if ptr == 0 {
        true
    } else if fuel == 0 {
        false
    } else {
        cap_chain_terminates(m, spec_cap_at(m, ptr).1, (fuel - 1) as nat)
    }
}

/// For a finite chain of next pointers ending in 0, traversal from the
/// head yields exactly the chain's nodes in link order, however much
/// further the traversal bound would have allowed it to go: once the
/// chain terminates within the bound, a larger bound changes nothing.
pub proof fn lemma_cap_chain_complete<T: Method>(m: T, ptr: u8, f1: nat, f2: nat)
    requires
        cap_chain_terminates(m, ptr, f1),
        f1 <= f2,
    ensures
        spec_cap_chain(m, ptr, f2) == spec_cap_chain(m, ptr, f1),
        cap_chain_terminates(m, ptr, f2),
    decreases f1,
{
    if ptr == 0 {
        assert(spec_cap_chain(m, ptr, f2) =~= spec_cap_chain(m, ptr, f1));
    } else {
        lemma_cap_chain_complete(m, spec_cap_at(m, ptr).1, (f1 - 1) as nat, (f2 - 1) as nat);
    }
}

/// The bound on capability traversal: configuration space cannot hold
/// more distinct capability nodes than it has bytes, so a longer walk
/// can only mean a malformed, cyclic chain.
pub const CAPABILITY_WALK_LIMIT: usize = 256;

/// One node of the capability list: its identifier, the offset of the
/// next node (0 terminates the list), and the shared handle through
/// which the next node can be read.
#[derive(Clone, Debug)]
pub struct PciCapability<T: Method> {
    pub method: Rc<T>,
    pub id: u8,
    pub next_pointer: u8,
}

impl<T: Method> PciCapability<T> {
    /// Splits a raw capability dword into its identifier (low byte) and
    /// next pointer (second byte).
    pub fn from(method: Rc<T>, value: u32) -> (r: PciCapability<T>)
        ensures
            r.method == method,
            r.id == (value & 0x0000_00FF) as u8,
            r.next_pointer == ((value & 0x0000_FF00) >> 8) as u8,
    {
        PciCapability {
            method,
            id: (value & 0x0000_00FF) as u8,
            next_pointer: ((value & 0x0000_FF00) >> 8) as u8,
        }
    }

    /// The capability kind of this node, or nothing for an identifier
    /// outside the known range.
    pub fn id(&self) -> (r: Option<CapabilityId>)
        ensures
            r == spec_capability_id(self.id),
    {
        match self.id {
            0x00 => Some(CapabilityId::Null),
            0x01 => Some(CapabilityId::Pm),
            0x02 => Some(CapabilityId::Agp),
            0x03 => Some(CapabilityId::Vpd),
            0x04 => Some(CapabilityId::SlotId),
            0x05 => Some(CapabilityId::Msi),
            0x06 => Some(CapabilityId::CompatPciHotSwap),
            0x07 => Some(CapabilityId::PciX),
            0x08 => Some(CapabilityId::HyperTransport),
            0x09 => Some(CapabilityId::VendorSpecific),
            0x0A => Some(CapabilityId::DebugPort),
            0x0B => Some(CapabilityId::CompatPciCrc),
            0x0C => Some(CapabilityId::PciHotPlug),
            0x0D => Some(CapabilityId::PciBridgeSubVendorId),
            0x0E => Some(CapabilityId::Agp8x),
            0x0F => Some(CapabilityId::SecureDevice),
            0x10 => Some(CapabilityId::PciE),
            0x11 => Some(CapabilityId::MsiX),
            0x12 => Some(CapabilityId::SataConfig),
            0x13 => Some(CapabilityId::AdvanedFeature),
            0x14 => Some(CapabilityId::EnhancedAllocation),
            0x15 => Some(CapabilityId::FlatteningPortalBridge),
            _ => None,
        }
    }

    pub fn next_pointer(&self) -> (r: u8)
        ensures
            r == self.next_pointer,
    {
        self.next_pointer
    }

    /// Reads the node this one links to, with a fresh read through the
    /// shared handle. A next pointer of 0 terminates the list.
    pub fn next(&self) -> (r: Option<PciCapability<T>>)
        ensures
            r is Some <==> self.next_pointer != 0,
            r matches Some(c) ==> {
                &&& c.method == self.method
                &&& (c.id, c.next_pointer) == spec_cap_at(*self.method, self.next_pointer)
            },
    {
        if self.next_pointer == 0 {
            None
        } else {
            let data = rc_as_ref(&self.method).read32(self.next_pointer);
            Some(PciCapability::from(rc_clone(&self.method), data))
        }
    }
}

impl<T: Method> PciConfig<T> {
    /// The head offset of this document's capability list: the stored
    /// capabilities pointer when the status register's capabilities-list
    /// flag is set, and 0 (no list) when it is clear.
    pub open spec fn spec_cap_head(self) -> u8 {
        if bit16(self.status.0, 4) {
            self.capabilities_pointer
        } else {
            0
        }
    }

    /// The first node of the capability list, read lazily. Yields
    /// nothing when the status register's capabilities-list flag is
    /// clear or the capabilities pointer is 0.
    pub fn capability(&self) -> (r: Option<PciCapability<T>>)
        ensures
            r is Some <==> self.spec_cap_head() != 0,
            r matches Some(c) ==> {
                &&& c.method == self.method
                &&& (c.id, c.next_pointer) == spec_cap_at(*self.method, self.capabilities_pointer)
            },
    {
        if !self.status().capabilities_list() {
            return None;
        }
        let value = (self.capabilities_pointer as u32) << 8;
        proof {
            let p = self.capabilities_pointer;
            assert((((p as u32) << 8) & 0x0000_00FF) as u8 == 0) by (bit_vector);
            assert(((((p as u32) << 8) & 0x0000_FF00) >> 8) as u8 == p) by (bit_vector);
        }
        let cap = PciCapability::from(rc_clone(&self.method), value);
        cap.next()
    }

    /// Walks the whole capability list from the head, following each
    /// node's next pointer until a pointer of 0, and collects the nodes
    /// in link order. A malformed device could link its nodes in a
    /// cycle, so the walk stops after `CAPABILITY_WALK_LIMIT` nodes.
    pub fn capabilities(&self) -> (r: Vec<PciCapability<T>>)
        ensures
            r@.map_values(|c: PciCapability<T>| (c.id, c.next_pointer)) == spec_cap_chain(
                *self.method,
                self.spec_cap_head(),
                CAPABILITY_WALK_LIMIT as nat,
            ),
            forall|i: int| 0 <= i < r@.len() ==> #[trigger] r@[i].method == self.method,
    {
        let ghost head = self.spec_cap_head();
        let mut out: Vec<PciCapability<T>> = Vec::new();
        let mut ptr: u8 = if self.status().capabilities_list() {
            self.capabilities_pointer
        } else {
            0
        };
        let mut fuel: usize = CAPABILITY_WALK_LIMIT;

        proof {
            assert(out@.map_values(|c: PciCapability<T>| (c.id, c.next_pointer)) =~= Seq::<(
                u8,
                u8,
            )>::empty());
        }

        while ptr != 0 && fuel > 0
            invariant
                fuel <= CAPABILITY_WALK_LIMIT,
                spec_cap_chain(*self.method, head, CAPABILITY_WALK_LIMIT as nat) == out@.map_values(
                    |c: PciCapability<T>| (c.id, c.next_pointer),
                ) + spec_cap_chain(*self.method, ptr, fuel as nat),
                forall|i: int| 0 <= i < out@.len() ==> #[trigger] out@[i].method == self.method,
            decreases fuel,
        {
            let data = rc_as_ref(&self.method).read32(ptr);
            let cap = PciCapability::from(rc_clone(&self.method), data);
            let next = cap.next_pointer;
            proof {
                let prev = out@.map_values(|c: PciCapability<T>| (c.id, c.next_pointer));
                assert(out@.push(cap).map_values(|c: PciCapability<T>| (c.id, c.next_pointer))
                    =~= prev + seq![(cap.id, cap.next_pointer)]);
                assert((cap.id, cap.next_pointer) == spec_cap_at(*self.method, ptr));
                assert(spec_cap_chain(*self.method, ptr, fuel as nat) == seq![
                    spec_cap_at(*self.method, ptr),
                ] + spec_cap_chain(*self.method, next, (fuel - 1) as nat));
                assert(prev + spec_cap_chain(*self.method, ptr, fuel as nat) =~= (prev + seq![
                    (cap.id, cap.next_pointer),
                ]) + spec_cap_chain(*self.method, next, (fuel - 1) as nat));
            }
            out.push(cap);
            ptr = next;
            fuel = fuel - 1;
        }

        proof {
            assert(spec_cap_chain(*self.method, ptr, fuel as nat) =~= Seq::<(u8, u8)>::empty());
            assert(out@.map_values(|c: PciCapability<T>| (c.id, c.next_pointer)) + Seq::<(
                u8,
                u8,
            )>::empty() =~= out@.map_values(|c: PciCapability<T>| (c.id, c.next_pointer)));
        }

        out
    }
}

/// The resolver half of the register-access contract: binds one read
/// handle per device address. `resolve_spec` fixes which handle, if
/// any, the backend has for an address, so that enumeration can be
/// stated as a function of the backend.
pub trait Resolver: Sized {
    type Handle: Method;

    /// Which handle, if any, the backend binds to an address.
    spec fn resolve_spec(&self, bus: u8, device: u8, func: u8) -> Option<Self::Handle>;

    /// Binds a handle to one device address. Fails exactly where the
    /// backend cannot represent or reach that address; enumeration
    /// skips such addresses.
    fn resolve(&self, bus: u8, device: u8, func: u8) -> (r: Result<Self::Handle, Error>)
        ensures
            match r {
                Ok(h) => self.resolve_spec(bus, device, func) == Some(h),
                Err(_) => self.resolve_spec(bus, device, func) is None,
            },
    ;
}

/// The handle a probe of one address yields: the bound handle when the
/// backend resolves the address and the identifier words it reads show
/// a device behind it.
pub open spec fn probe_spec<R: Resolver>(r: R, bus: u8, device: u8, func: u8) -> Option<
    R::Handle,
> {
    match r.resolve_spec(bus, device, func) {
        Some(h) => if device_present(h) {
            Some(h)
        } else {
            None
        },
        None => None,
    }
}

/// The present functions of one slot from function `f` up, in function
/// order. Probed only on multi-function devices.
pub open spec fn funcs_from<R: Resolver>(r: R, bus: u8, device: u8, f: int) -> Seq<
    (u8, u8, u8, R::Handle),
>
    decreases 8 - f,
{
    if f < 1 || f >= 8 {
        Seq::empty()
    } else {
        let rest = funcs_from(r, bus, device, f + 1);
        match probe_spec(r, bus, device, f as u8) {
            Some(h) => seq![(bus, device, f as u8, h)] + rest,
            None => rest,
        }
    }
}

/// The present functions of one device slot: nothing unless function 0
/// answers; functions 1 to 7 only when function 0's header marks a
/// multi-function device.
pub open spec fn device_entries<R: Resolver>(r: R, bus: u8, device: u8) -> Seq<
    (u8, u8, u8, R::Handle),
> {
    match probe_spec(r, bus, device, 0) {
        Some(h0) => seq![(bus, device, 0u8, h0)] + (if bit8(
            h0.read8_spec(OFFSET_HEADER_TYPE),
            7,
        ) {
            funcs_from(r, bus, device, 1)
        } else {
            Seq::empty()
        }),
        None => Seq::empty(),
    }
}

/// The present functions of one bus from device slot `d` up, in slot
/// order.
pub open spec fn bus_entries_from<R: Resolver>(r: R, bus: u8, d: int) -> Seq<
    (u8, u8, u8, R::Handle),
>
    decreases 32 - d,
{
    if d < 0 || d >= 32 {
        Seq::empty()
    } else {
        device_entries(r, bus, d as u8) + bus_entries_from(r, bus, d + 1)
    }
}

/// All present functions of one bus, in (device, function) order.
pub open spec fn bus_entries<R: Resolver>(r: R, bus: u8) -> Seq<(u8, u8, u8, R::Handle)> {
    bus_entries_from(r, bus, 0)
}

/// The secondary bus numbers reported by the bridges among `entries`,
/// in entry order: one per entry whose header layout kind is 1.
pub open spec fn sub_buses<T: Method>(entries: Seq<(u8, u8, u8, T)>) -> Seq<u8>
    decreases entries.len(),
{
    if entries.len() == 0 {
        Seq::empty()
    } else {
        let h = entries[0].3;
        let rest = sub_buses(entries.skip(1));
        if h.read8_spec(OFFSET_HEADER_TYPE) & 0x7F == 1 {
            seq![h.read8_spec(OFFSET_TYPE1_SECONDARY_BUS_NUM)] + rest
        } else {
            rest
        }
    }
}

/// The full scan of one bus: the bus's own present functions, followed
/// by the scans of each secondary bus its bridges report, in the order
/// the bridges stand. `fuel` bounds the recursion depth.
pub open spec fn scan_spec<R: Resolver>(r: R, bus: u8, fuel: nat) -> Seq<(u8, u8, u8, R::Handle)>
    decreases fuel, 0int,
{
    let level = bus_entries(r, bus);
    if fuel == 0 {
        level
    } else {
        level + scan_buses_spec(r, sub_buses(level), (fuel - 1) as nat)
    }
}

/// The concatenated scans of a run of bus numbers, each with the same
/// remaining depth.
pub open spec fn scan_buses_spec<R: Resolver>(r: R, buses: Seq<u8>, fuel: nat) -> Seq<
    (u8, u8, u8, R::Handle),
>
    decreases fuel, buses.len() + 1,
{
    if buses.len() == 0 {
        Seq::empty()
    } else {
        scan_spec(r, buses[0], fuel) + scan_buses_spec(r, buses.skip(1), fuel)
    }
}

/// How a list of decoded documents relates to the handle-level model of
/// a scan: same addresses in the same order, each document decoding its
/// model handle.
pub open spec fn entries_match<T: Method>(
    ds: Seq<(u8, u8, u8, PciConfig<T>)>,
    es: Seq<(u8, u8, u8, T)>,
) -> bool {
    &&& ds.len() == es.len()
    &&& forall|i: int|
        0 <= i < ds.len() ==> {
            &&& (#[trigger] ds[i]).0 == (#[trigger] es[i]).0
            &&& ds[i].1 == es[i].1
            &&& ds[i].2 == es[i].2
            &&& is_config_of(ds[i].3, es[i].3)
        }
}

pub proof fn lemma_entries_match_append<T: Method>(
    d1: Seq<(u8, u8, u8, PciConfig<T>)>,
    e1: Seq<(u8, u8, u8, T)>,
    d2: Seq<(u8, u8, u8, PciConfig<T>)>,
    e2: Seq<(u8, u8, u8, T)>,
)
    requires
        entries_match(d1, e1),
        entries_match(d2, e2),
    ensures
        entries_match(d1 + d2, e1 + e2),
{
    assert forall|i: int| 0 <= i < (d1 + d2).len() implies {
        &&& ((d1 + d2)[i]).0 == ((e1 + e2)[i]).0
        &&& ((d1 + d2)[i]).1 == ((e1 + e2)[i]).1
        &&& ((d1 + d2)[i]).2 == ((e1 + e2)[i]).2
        &&& is_config_of(((d1 + d2)[i]).3, ((e1 + e2)[i]).3)
    } by {
        if i < d1.len() {
            assert((d1 + d2)[i] == d1[i]);
            assert((e1 + e2)[i] == e1[i]);
        } else {
            assert((d1 + d2)[i] == d2[i - d1.len()]);
            assert((e1 + e2)[i] == e2[i - e1.len()]);
        }
    }
}

/// The bridge list distributes over splitting the entry list.
pub proof fn lemma_sub_buses_append<T: Method>(a: Seq<(u8, u8, u8, T)>, b: Seq<(u8, u8, u8, T)>)
    ensures
        sub_buses(a + b) == sub_buses(a) + sub_buses(b),
    decreases a.len(),
{
    if a.len() == 0 {
        assert(a + b =~= b);
        assert(sub_buses(a) =~= Seq::<u8>::empty());
        assert(sub_buses(a) + sub_buses(b) =~= sub_buses(b));
    } else {
        assert((a + b)[0] == a[0]);
        assert((a + b).skip(1) =~= a.skip(1) + b);
        lemma_sub_buses_append(a.skip(1), b);
        assert(sub_buses(a + b) =~= sub_buses(a) + sub_buses(b));
    }
}

/// Probes one address: resolves it and decodes the common header.
/// Yields nothing when the backend cannot resolve the address or the
/// identifier words show no device.
fn probe<R: Resolver>(resolver: &R, bus: u8, device: u8, func: u8) -> (r: Option<
    PciConfig<R::Handle>,
>)
    ensures
        r is Some <==> probe_spec(*resolver, bus, device, func) is Some,
        r matches Some(c) ==> is_config_of(c, probe_spec(*resolver, bus, device, func)->0),
{
    match resolver.resolve(bus, device, func) {
        Ok(m) => get_pci_config(m),
        Err(_) => None,
    }
}

/// Probes functions 1 to 7 of one multi-function slot, in order.
fn scan_functions<R: Resolver>(resolver: &R, bus: u8, device: u8) -> (devs: Vec<
    (u8, u8, u8, PciConfig<R::Handle>),
>)
    ensures
        entries_match(devs@, funcs_from(*resolver, bus, device, 1)),
{
    let mut devs: Vec<(u8, u8, u8, PciConfig<R::Handle>)> = Vec::new();
    let ghost mut pre: Seq<(u8, u8, u8, R::Handle)> = Seq::empty();
    let mut func: u8 = 1;

    while func < 8
        invariant
            1 <= func <= 8,
            entries_match(devs@, pre),
            funcs_from(*resolver, bus, device, 1) == pre + funcs_from(
                *resolver,
                bus,
                device,
                func as int,
            ),
        decreases 8 - func,
    {
        let ghost before = funcs_from(*resolver, bus, device, func as int);
        match probe(resolver, bus, device, func) {
            Some(v) => {
                let ghost h = probe_spec(*resolver, bus, device, func)->0;
                proof {
                    assert(before == seq![(bus, device, func, h)] + funcs_from(
                        *resolver,
                        bus,
                        device,
                        func as int + 1,
                    ));
                    assert(devs@.push((bus, device, func, v)) =~= devs@ + seq![
                        (bus, device, func, v),
                    ]);
                    assert(entries_match(seq![(bus, device, func, v)], seq![
                        (bus, device, func, h),
                    ]));
                    lemma_entries_match_append(devs@, pre, seq![(bus, device, func, v)], seq![
                        (bus, device, func, h),
                    ]);
                    assert((pre + seq![(bus, device, func, h)]) + funcs_from(
                        *resolver,
                        bus,
                        device,
                        func as int + 1,
                    ) =~= pre + before);
                }
                devs.push((bus, device, func, v));
                proof {
                    pre = pre + seq![(bus, device, func, h)];
                }
            },
            None => {
                proof {
                    assert(before == funcs_from(*resolver, bus, device, func as int + 1));
                }
            },
        }
        func = func + 1;
    }
    proof {
        assert(funcs_from(*resolver, bus, device, 8) =~= Seq::empty());
        assert(pre + funcs_from(*resolver, bus, device, 8) =~= pre);
    }
    devs
}

/// Probes one device slot: function 0 always, the other functions only
/// when function 0 marks a multi-function device.
fn scan_one_device<R: Resolver>(resolver: &R, bus: u8, device: u8) -> (devs: Vec<
    (u8, u8, u8, PciConfig<R::Handle>),
>)
    ensures
        entries_match(devs@, device_entries(*resolver, bus, device)),
{
    match probe(resolver, bus, device, 0) {
        None => {
            let devs: Vec<(u8, u8, u8, PciConfig<R::Handle>)> = Vec::new();
            proof {
                assert(device_entries(*resolver, bus, device) =~= Seq::empty());
            }
            devs
        },
        Some(v) => {
            let ghost h0 = probe_spec(*resolver, bus, device, 0)->0;
            let multi = v.header_type().multi_function_device();
            let mut devs: Vec<(u8, u8, u8, PciConfig<R::Handle>)> = Vec::new();
            devs.push((bus, device, 0, v));
            proof {
                assert(devs@ =~= seq![devs@[0]]);
                assert(entries_match(devs@, seq![(bus, device, 0u8, h0)]));
            }
            if multi {
                let mut fdevs = scan_functions(resolver, bus, device);
                proof {
                    lemma_entries_match_append(
                        devs@,
                        seq![(bus, device, 0u8, h0)],
                        fdevs@,
                        funcs_from(*resolver, bus, device, 1),
                    );
                }
                devs.append(&mut fdevs);
            } else {
                proof {
                    assert(device_entries(*resolver, bus, device) =~= seq![
                        (bus, device, 0u8, h0),
                    ]);
                }
            }
            devs
        },
    }
}

/// Probes every device slot of one bus, in slot order.
fn scan_bus_level<R: Resolver>(resolver: &R, bus: u8) -> (devs: Vec<
    (u8, u8, u8, PciConfig<R::Handle>),
>)
    ensures
        entries_match(devs@, bus_entries(*resolver, bus)),
{
    let mut devs: Vec<(u8, u8, u8, PciConfig<R::Handle>)> = Vec::new();
    let ghost mut pre: Seq<(u8, u8, u8, R::Handle)> = Seq::empty();
    let mut device: u8 = 0;

    while device < 32
        invariant
            device <= 32,
            entries_match(devs@, pre),
            bus_entries(*resolver, bus) == pre + bus_entries_from(*resolver, bus, device as int),
        decreases 32 - device,
    {
        let ghost de = device_entries(*resolver, bus, device);
        proof {
            assert(bus_entries_from(*resolver, bus, device as int) == de + bus_entries_from(
                *resolver,
                bus,
                device as int + 1,
            ));
        }
        let mut step = scan_one_device(resolver, bus, device);
        proof {
            lemma_entries_match_append(devs@, pre, step@, de);
            assert((pre + de) + bus_entries_from(*resolver, bus, device as int + 1) =~= pre + (de
                + bus_entries_from(*resolver, bus, device as int + 1)));
        }
        devs.append(&mut step);
        proof {
            pre = pre + de;
        }
        device = device + 1;
    }
    proof {
        assert(bus_entries_from(*resolver, bus, 32) =~= Seq::empty());
        assert(pre + bus_entries_from(*resolver, bus, 32) =~= pre);
    }
    devs
}

/// The bridge list of a single entry: its secondary bus number when its
/// header layout kind is 1, nothing otherwise.
proof fn lemma_sub_buses_singleton<T: Method>(e: (u8, u8, u8, T))
    ensures
        e.3.read8_spec(OFFSET_HEADER_TYPE) & 0x7F == 1 ==> sub_buses(seq![e]) == seq![
            e.3.read8_spec(OFFSET_TYPE1_SECONDARY_BUS_NUM),
        ],
        e.3.read8_spec(OFFSET_HEADER_TYPE) & 0x7F != 1 ==> sub_buses(seq![e]) == Seq::<
            u8,
        >::empty(),
{
    let s = seq![e];
    assert(s.len() == 1);
    assert(s[0] == e);
    assert(s.skip(1) =~= Seq::<(u8, u8, u8, T)>::empty());
    assert(sub_buses(Seq::<(u8, u8, u8, T)>::empty()) =~= Seq::<u8>::empty());
    if e.3.read8_spec(OFFSET_HEADER_TYPE) & 0x7F == 1 {
        assert(sub_buses(s) =~= seq![e.3.read8_spec(OFFSET_TYPE1_SECONDARY_BUS_NUM)]
            + sub_buses(s.skip(1)));
        assert(sub_buses(s) =~= seq![e.3.read8_spec(OFFSET_TYPE1_SECONDARY_BUS_NUM)]);
    } else {
        assert(sub_buses(s) =~= sub_buses(s.skip(1)));
    }
}

/// Reads each entry's bridge header lazily and collects the secondary
/// bus numbers of the bridges, in entry order.
fn collect_sub_buses<T: Method>(
    devs: &Vec<(u8, u8, u8, PciConfig<T>)>,
    Ghost(es): Ghost<Seq<(u8, u8, u8, T)>>,
) -> (subs: Vec<u8>)
    requires
        entries_match(devs@, es),
    ensures
        subs@ == sub_buses(es),
{
    let mut subs: Vec<u8> = Vec::new();
    let mut i: usize = 0;

    proof {
        assert(sub_buses(es.take(0)) =~= Seq::<u8>::empty());
    }

    while i < devs.len()
        invariant
            entries_match(devs@, es),
            i <= devs.len(),
            subs@ == sub_buses(es.take(i as int)),
        decreases devs.len() - i,
    {
        let ghost e = es[i as int];
        proof {
            assert(es.take(i as int + 1) =~= es.take(i as int) + seq![e]);
            lemma_sub_buses_append(es.take(i as int), seq![e]);
            lemma_sub_buses_singleton(e);
            assert(is_config_of(devs@[i as int].3, e.3));
        }
        match devs[i].3.get_type1_header() {
            Some(t1) => {
                subs.push(t1.secondary_bus_number());
                proof {
                    assert(subs@ =~= sub_buses(es.take(i as int)) + sub_buses(seq![e]));
                }
            },
            None => {
                proof {
                    assert(sub_buses(es.take(i as int)) + sub_buses(seq![e]) =~= sub_buses(
                        es.take(i as int),
                    ));
                }
            },
        }
        i = i + 1;
    }
    proof {
        assert(es.take(devs@.len() as int) =~= es);
    }
    subs
}

/// The bound on recursive descent through bridges: bus numbers are one
/// byte, so a conformant topology can never nest deeper.
pub const MAX_SCAN_DEPTH: usize = 255;

fn scan_rec<R: Resolver>(resolver: &R, bus: u8, fuel: usize) -> (devs: Vec<
    (u8, u8, u8, PciConfig<R::Handle>),
>)
    ensures
        entries_match(devs@, scan_spec(*resolver, bus, fuel as nat)),
    decreases fuel,
{
    let mut devs = scan_bus_level(resolver, bus);
    let ghost level = bus_entries(*resolver, bus);
    if fuel == 0 {
        devs
    } else {
        let subs = collect_sub_buses(&devs, Ghost(level));
        let ghost mut done: Seq<(u8, u8, u8, R::Handle)> = level;
        let mut i: usize = 0;
        proof {
            assert(subs@.skip(0) =~= subs@);
        }
        while i < subs.len()
            invariant
                fuel >= 1,
                i <= subs.len(),
                subs@ == sub_buses(level),
                entries_match(devs@, done),
                scan_spec(*resolver, bus, fuel as nat) == done + scan_buses_spec(
                    *resolver,
                    subs@.skip(i as int),
                    (fuel - 1) as nat,
                ),
            decreases subs.len() - i,
        {
            let mut sd = scan_rec(resolver, subs[i], fuel - 1);
            let ghost sde = scan_spec(*resolver, subs@[i as int], (fuel - 1) as nat);
            proof {
                assert(subs@.skip(i as int)[0] == subs@[i as int]);
                assert(subs@.skip(i as int).skip(1) =~= subs@.skip(i as int + 1));
                lemma_entries_match_append(devs@, done, sd@, sde);
                assert((done + sde) + scan_buses_spec(
                    *resolver,
                    subs@.skip(i as int + 1),
                    (fuel - 1) as nat,
                ) =~= done + (sde + scan_buses_spec(
                    *resolver,
                    subs@.skip(i as int + 1),
                    (fuel - 1) as nat,
                )));
            }
            devs.append(&mut sd);
            proof {
                done = done + sde;
            }
            i = i + 1;
        }
        proof {
            assert(subs@.skip(subs@.len() as int) =~= Seq::<u8>::empty());
            assert(done + scan_buses_spec(
                *resolver,
                Seq::<u8>::empty(),
                (fuel - 1) as nat,
            ) =~= done);
        }
        devs
    }
}

/// Walks the bus tree from `bus`: probes the 32 device slots of each
/// bus, follows every bridge's secondary bus after the level is fully
/// scanned, and returns the complete device inventory in traversal
/// order. Addresses that cannot be resolved or show no device are
/// skipped; the walk's depth is bounded by `MAX_SCAN_DEPTH`.
pub fn scan_device<R: Resolver>(resolver: &R, bus: u8) -> (devs: Vec<
    (u8, u8, u8, PciConfig<R::Handle>),
>)
    ensures
        entries_match(devs@, scan_spec(*resolver, bus, MAX_SCAN_DEPTH as nat)),
{
    scan_rec(resolver, bus, MAX_SCAN_DEPTH)
}

} // verus!
