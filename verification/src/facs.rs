//! The Firmware ACPI Control Structure.
use vstd::prelude::*;
use crate::le::{le32, le64, push_slice, push_u32, push_u64, push_zeros, zeros};

verus! {

/// Signature of the structure.
pub const FACS_SIGNATURE: [u8; 4] = [0x46u8, 0x41u8, 0x43u8, 0x53u8];
/// Size of the structure.
pub const FACS_LEN: u32 = 64;

/// A Firmware ACPI Control Structure.
pub struct FACS {
    pub signature: [u8; 4],
    pub length: u32,
    pub hardware_signature: u32,
    pub waking_vector: u32,
    pub global_lock: u32,
    pub flags: u32,
    pub x_waking_vector: u64,
    pub version: u8,
    pub ospm_flags: u32,
}

/// The 64 bytes of the structure, reserved bytes zero.
pub open spec fn facs_bytes(f: FACS) -> Seq<u8> {
    f.signature@ + le32(f.length) + le32(f.hardware_signature) + le32(f.waking_vector) + le32(
        f.global_lock,
    ) + le32(f.flags) + le64(f.x_waking_vector) + seq![f.version] + zeros(3) + le32(f.ospm_flags)
        + zeros(24)
}

impl FACS {
    /// A structure of version 2 with every other field zero.
    pub fn new() -> (f: FACS)
        ensures
            f.signature@ == FACS_SIGNATURE@,
            f.length == FACS_LEN,
            f.hardware_signature == 0,
            f.waking_vector == 0,
            f.global_lock == 0,
            f.flags == 0,
            f.x_waking_vector == 0,
            f.version == 2,
            f.ospm_flags == 0,
    {
        FACS {
            signature: FACS_SIGNATURE,
            length: FACS_LEN,
            hardware_signature: 0,
            waking_vector: 0,
            global_lock: 0,
            flags: 0,
            x_waking_vector: 0,
            version: 2,
            ospm_flags: 0,
        }
    }

    /// Appends the structure's bytes to `sink`.
    pub fn to_aml_bytes(&self, sink: &mut Vec<u8>)
        ensures
            final(sink)@ == old(sink)@ + facs_bytes(*self),
    {
        push_slice(sink, &self.signature);
        push_u32(sink, self.length);
        push_u32(sink, self.hardware_signature);
        push_u32(sink, self.waking_vector);
        push_u32(sink, self.global_lock);
        push_u32(sink, self.flags);
        push_u64(sink, self.x_waking_vector);
        sink.push(self.version);
        push_zeros(sink, 3);
        push_u32(sink, self.ospm_flags);
        push_zeros(sink, 24);
        assert(sink@ =~= old(sink)@ + facs_bytes(*self));
    }
}

} // verus!
