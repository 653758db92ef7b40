use vstd::prelude::*;

use crate::error::Error;

verus! {

/// The fixed address-select port of the legacy port-mapped protocol.
pub const CONFIG_ADDRESS: u16 = 0x0CF8;

/// The fixed data port of the legacy port-mapped protocol.
pub const CONFIG_DATA: u16 = 0x0CFC;

/// The dword-aligned offset and the bit shift that carve a sub-field
/// out of the dword read at that offset.
pub open spec fn spec_multiple4(value: u8) -> (u8, u8) {
    (((value / 4) * 4) as u8, ((value % 4) * 8) as u8)
}

/// Splits a byte offset into its dword-aligned base and the bit shift
/// of the byte within that dword: the port protocol transfers whole
/// dwords only.
pub fn multiple4(value: u8) -> (r: (u8, u8))
    ensures
        r == spec_multiple4(value),
{
    let rem = value % 4;
    (value - rem, rem * 8)
}

/// The 32-bit word written to the address-select port: the enable bit,
/// then bus, device, function and dword-aligned offset packed into
/// their fields.
pub open spec fn spec_config_address(bus: u8, device: u8, func: u8, offset: u8) -> u32 {
    (offset as u32) | ((func as u32) << 8) | ((device as u32) << 11) | ((bus as u32) << 16)
        | 0x8000_0000
}

/// Packs one device address and register offset into the word the
/// address-select port takes. Writing it and then transferring through
/// the data port is a two-step protocol: the pair must be serialized
/// against concurrent callers.
pub fn config_address(bus: u8, device: u8, func: u8, offset: u8) -> (r: u32)
    ensures
        r == spec_config_address(bus, device, func, offset),
{
    (offset as u32) | ((func as u32) << 8) | ((device as u32) << 11) | ((bus as u32) << 16)
        | 0x8000_0000
}

/// The byte at bit position `shift` of a dword fetched from the data
/// port.
pub fn extract8(value: u32, shift: u8) -> (r: u8)
    requires
        shift < 32,
    ensures
        r == ((value >> shift) & 0x0000_00FF) as u8,
{
    ((value >> (shift as u32)) & 0x0000_00FF) as u8
}

/// The word at bit position `shift` of a dword fetched from the data
/// port.
pub fn extract16(value: u32, shift: u8) -> (r: u16)
    requires
        shift < 32,
    ensures
        r == ((value >> shift) & 0x0000_FFFF) as u16,
{
    ((value >> (shift as u32)) & 0x0000_FFFF) as u16
}

/// One bound address of the port-mapped backend. The handle itself
/// holds nothing but the address; every transfer runs through the two
/// fixed ports, which the caller performs with `config_address`,
/// `multiple4` and the extract helpers around its own privileged port
/// reads.
#[derive(Clone, Copy, Debug, PartialEq, Eq, Structural)]
pub struct IoPort {
    pub bus: u8,
    pub device: u8,
    pub func: u8,
}

impl IoPort {
    /// Binds the address. The port-mapped protocol can name every
    /// address, so binding never fails.
    pub fn try_from(bus: u8, device: u8, func: u8) -> (r: Result<IoPort, Error>)
        ensures
            r matches Ok(p) && p == (IoPort { bus, device, func }),
    {
        Ok(IoPort { bus, device, func })
    }

    /// The address-select word for a register of this handle's device.
    pub fn address_for(&self, offset: u8) -> (r: u32)
        ensures
            r == spec_config_address(self.bus, self.device, self.func, offset),
    {
        config_address(self.bus, self.device, self.func, offset)
    }
}

} // verus!
