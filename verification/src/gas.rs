//! Generic Address Structures: where a register lives and how to reach it.
use vstd::prelude::*;
use crate::le::{le64, push_u64};

verus! {

/// The address space that a register lives in.
#[derive(Clone, Copy, Debug, PartialEq, Eq, Structural)]
pub enum AddressSpace {
    SystemMemory,
    SystemIo,
    PciConfigSpace,
    EmbeddedController,
    Smbus,
    SystemCmos,
    PciBarTarget,
    Ipmi,
    GeneralPurposeIo,
    GenericSerialBus,
    PlatformCommunicationsChannel,
    FunctionalFixedHardware,
}

/// The width of the accesses that a register takes.
#[derive(Clone, Copy, Debug, PartialEq, Eq, Structural)]
pub enum AccessSize {
    Undefined,
    ByteAccess,
    WordAccess,
    DwordAccess,
    QwordAccess,
}

/// The ID that the ACPI specification gives an address space.
pub open spec fn address_space_id(a: AddressSpace) -> u8 {
    match a {
        AddressSpace::SystemMemory => 0,
        AddressSpace::SystemIo => 1,
        AddressSpace::PciConfigSpace => 2,
        AddressSpace::EmbeddedController => 3,
        AddressSpace::Smbus => 4,
        AddressSpace::SystemCmos => 5,
        AddressSpace::PciBarTarget => 6,
        AddressSpace::Ipmi => 7,
        AddressSpace::GeneralPurposeIo => 8,
        AddressSpace::GenericSerialBus => 9,
        AddressSpace::PlatformCommunicationsChannel => 0x0a,
        AddressSpace::FunctionalFixedHardware => 0x7f,
    }
}

/// The code that the ACPI specification gives an access size.
pub open spec fn access_size_id(a: AccessSize) -> u8 {
    match a {
        AccessSize::Undefined => 0,
        AccessSize::ByteAccess => 1,
        AccessSize::WordAccess => 2,
        AccessSize::DwordAccess => 3,
        AccessSize::QwordAccess => 4,
    }
}

impl AddressSpace {
    /// The ID of this address space.
    pub fn id(&self) -> (r: u8)
        ensures
            r == address_space_id(*self),
    {
        match self {
            AddressSpace::SystemMemory => 0,
            AddressSpace::SystemIo => 1,
            AddressSpace::PciConfigSpace => 2,
            AddressSpace::EmbeddedController => 3,
            AddressSpace::Smbus => 4,
            AddressSpace::SystemCmos => 5,
            AddressSpace::PciBarTarget => 6,
            AddressSpace::Ipmi => 7,
            AddressSpace::GeneralPurposeIo => 8,
            AddressSpace::GenericSerialBus => 9,
            AddressSpace::PlatformCommunicationsChannel => 0x0a,
            AddressSpace::FunctionalFixedHardware => 0x7f,
        }
    }
}

impl AccessSize {
    /// The code of this access size.
    pub fn id(&self) -> (r: u8)
        ensures
            r == access_size_id(*self),
    {
        match self {
            AccessSize::Undefined => 0,
            AccessSize::ByteAccess => 1,
            AccessSize::WordAccess => 2,
            AccessSize::DwordAccess => 3,
            AccessSize::QwordAccess => 4,
        }
    }
}

/// A Generic Address Structure.
#[derive(Clone, Copy, Debug, PartialEq, Eq, Structural)]
pub struct GAS {
    pub address_space_id: u8,
    pub register_bit_width: u8,
    pub register_bit_offset: u8,
    pub access_size: u8,
    pub address: u64,
}

/// The 12 bytes of a Generic Address Structure.
pub open spec fn gas_bytes(g: GAS) -> Seq<u8> {
    seq![g.address_space_id, g.register_bit_width, g.register_bit_offset, g.access_size]
        + le64(g.address)
}

impl GAS {
    /// A structure for the register at `address` in `address_space`.
    pub fn new(
        address_space: AddressSpace,
        register_bit_width: u8,
        register_bit_offset: u8,
        access_size: AccessSize,
        address: u64,
    ) -> (g: GAS)
        ensures
            g == (GAS {
                address_space_id: address_space_id(address_space),
                register_bit_width,
                register_bit_offset,
                access_size: access_size_id(access_size),
                address,
            }),
    {
        GAS {
            address_space_id: address_space.id(),
            register_bit_width,
            register_bit_offset,
            access_size: access_size.id(),
            address,
        }
    }

    /// The structure's bytes.
    pub fn as_bytes(&self) -> (b: Vec<u8>)
        ensures
            b@ == gas_bytes(*self),
    {
        let mut b: Vec<u8> = Vec::new();
        b.push(self.address_space_id);
        b.push(self.register_bit_width);
        b.push(self.register_bit_offset);
        b.push(self.access_size);
        push_u64(&mut b, self.address);
        assert(b@ =~= gas_bytes(*self));
        b
    }
}

impl Default for GAS {
    /// The all-zero structure, which stands for "no register".
    fn default() -> (g: GAS)
        ensures
            g == (GAS {
                address_space_id: 0,
                register_bit_width: 0,
                register_bit_offset: 0,
                access_size: 0,
                address: 0,
            }),
    {
        GAS { address_space_id: 0, register_bit_width: 0, register_bit_offset: 0, access_size: 0, address: 0 }
    }
}

} // verus!
