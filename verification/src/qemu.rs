//! The ACPI tables of a QEMU `q35` machine, laid out as QEMU's
//! `etc/acpi/tables` blob: FACS, DSDT, FADT, MADT, MCFG, WAET and RSDT.
use vstd::prelude::*;
use crate::aml::{
    aml_arg, aml_buffer, aml_byte_const, aml_device, aml_dword_const, aml_eisa_name, aml_io,
    aml_method, aml_method_call, aml_name, aml_package, aml_resource_template, aml_scope,
    append_arg, append_buffer, append_device, append_eisa_name, append_io, append_method,
    append_method_call, append_name, append_resource_template, append_scope, aml_byte,
    aml_dword, eisa_id_ok, pkg_length, EXT_OP_PREFIX,
};
use crate::hex::{decode_hex, hex_text_ok, is_hex_text, spec_decode_hex};
use crate::le::{le16, le32, le64, push_slice, push_u16, push_u32, push_u64, push_zeros, zeros};
use crate::gas::{gas_bytes, AccessSize, AddressSpace, GAS};
use crate::facs::{FACS, FACS_SIGNATURE};
use crate::sdt::{header_image, image, splice, Sdt, HEADER_LEN};
use vstd::string::StringSliceAdditionalSpecFns;
use crate::text::{decimal_chars, u8_decimal};

verus! {

/// Offset of the DSDT in the blob.
pub const DSDT_OFFSET: usize = 0x0040;
/// Offset of the FADT in the blob.
pub const FADT_OFFSET: usize = 0x250e;
/// Offset of the processor objects in the DSDT.
pub const DSDT_PROCESSOR_BLOCK_OFFSET: usize = 7405;
/// Offset of the template's middle part in the DSDT.
pub const DSDT_POST_PROCESSOR_BLOCK_OFFSET: usize = 8570;
/// Offset of the generated end of the DSDT.
pub const DSDT_GENERATED_TAIL_OFFSET: usize = 9192;
/// Length of the DSDT.
pub const DSDT_LEN: usize = 9422;
/// Length of the middle part of the DSDT template.
pub const DSDT_MID_LEN: usize = 622;

/// Size of the blob.
pub const QEMU_Q35_ACPI_BLOB_LEN: usize = 128 * 1024;
/// Processor count of the default profile.
pub const QEMU_Q35_CPU_COUNT: u8 = 16;
/// Largest processor count that the static template supports.
pub const QEMU_Q35_MAX_CPU_COUNT: u8 = 16;

/// OEM ID of the tables.
pub const QEMU_OEM_ID: [u8; 6] = [0x42, 0x4f, 0x43, 0x48, 0x53, 0x20];
/// OEM table ID of the tables.
pub const QEMU_OEM_TABLE_ID: [u8; 8] = [0x42, 0x58, 0x50, 0x43, 0x20, 0x20, 0x20, 0x20];
/// OEM revision of the tables.
pub const QEMU_OEM_REVISION: u32 = 1;
/// Creator ID of the tables.
pub const QEMU_CREATOR_ID: [u8; 4] = [0x42, 0x58, 0x50, 0x43];
/// Creator revision of the tables.
pub const QEMU_CREATOR_REVISION: [u8; 4] = [1, 0, 0, 0];

/// `FACP`
pub const FACP_SIGNATURE: [u8; 4] = [0x46, 0x41, 0x43, 0x50];
/// `APIC`
pub const APIC_SIGNATURE: [u8; 4] = [0x41, 0x50, 0x49, 0x43];
/// `MCFG`
pub const MCFG_SIGNATURE: [u8; 4] = [0x4d, 0x43, 0x46, 0x47];
/// `WAET`
pub const WAET_SIGNATURE: [u8; 4] = [0x57, 0x41, 0x45, 0x54];
/// `RSDT`
pub const RSDT_SIGNATURE: [u8; 4] = [0x52, 0x53, 0x44, 0x54];

/// Length of the FADT.
pub const FADT_LEN: u32 = 244;

/// `Processor` opcode (after the extended-opcode prefix).
pub const PROCESSOR_OP: u8 = 0x83;
/// `Return` opcode.
pub const RETURN_OP: u8 = 0xa4;
/// Small resource descriptor of an IRQ without flags.
pub const IRQ_NO_FLAGS_DESC: u8 = 0x22;

/// `_HID`
pub const HID: [u8; 4] = [0x5f, 0x48, 0x49, 0x44];
/// `_STA`
pub const STA: [u8; 4] = [0x5f, 0x53, 0x54, 0x41];
/// `_CRS`
pub const CRS: [u8; 4] = [0x5f, 0x43, 0x52, 0x53];
/// `_UID`
pub const UID: [u8; 4] = [0x5f, 0x55, 0x49, 0x44];
/// `_ADR`
pub const ADR: [u8; 4] = [0x5f, 0x41, 0x44, 0x52];
/// `_MAT`
pub const MAT: [u8; 4] = [0x5f, 0x4d, 0x41, 0x54];
/// `_EJ0`
pub const EJ0: [u8; 4] = [0x5f, 0x45, 0x4a, 0x30];
/// `_OST`
pub const OST: [u8; 4] = [0x5f, 0x4f, 0x53, 0x54];
/// `_E01`
pub const E01: [u8; 4] = [0x5f, 0x45, 0x30, 0x31];
/// `_GPE`
pub const GPE: [u8; 4] = [0x5f, 0x47, 0x50, 0x45];
/// `CSTA`
pub const CSTA: [u8; 4] = [0x43, 0x53, 0x54, 0x41];
/// `CEJ0`
pub const CEJ0: [u8; 4] = [0x43, 0x45, 0x4a, 0x30];
/// `COST`
pub const COST: [u8; 4] = [0x43, 0x4f, 0x53, 0x54];
/// `KBD_`
pub const KBD: [u8; 4] = [0x4b, 0x42, 0x44, 0x5f];
/// `MOU_`
pub const MOU: [u8; 4] = [0x4d, 0x4f, 0x55, 0x5f];
/// `COM1`
pub const COM1: [u8; 4] = [0x43, 0x4f, 0x4d, 0x31];
/// `RTC_`
pub const RTC: [u8; 4] = [0x52, 0x54, 0x43, 0x5f];
/// `SFA_`
pub const SFA: [u8; 4] = [0x53, 0x46, 0x41, 0x5f];
/// `SFB_`
pub const SFB: [u8; 4] = [0x53, 0x46, 0x42, 0x5f];
/// `PNP0303`, a PS/2 keyboard.
pub const PNP0303: [u8; 7] = [0x50, 0x4e, 0x50, 0x30, 0x33, 0x30, 0x33];
/// `PNP0F13`, a PS/2 mouse.
pub const PNP0F13: [u8; 7] = [0x50, 0x4e, 0x50, 0x30, 0x46, 0x31, 0x33];
/// `PNP0501`, a 16550A serial port.
pub const PNP0501: [u8; 7] = [0x50, 0x4e, 0x50, 0x30, 0x35, 0x30, 0x31];
/// `PNP0B00`, an AT real-time clock.
pub const PNP0B00: [u8; 7] = [0x50, 0x4e, 0x50, 0x30, 0x42, 0x30, 0x30];

// ---------------------------------------------------------------- profile

/// The machine properties that the tables depend on.
#[derive(Clone, Copy, Debug, PartialEq, Eq, Structural)]
pub struct QemuQ35AcpiProfile {
    pub cpu_count: u8,
    pub max_cpu_count: u8,
}

impl Default for QemuQ35AcpiProfile {
    /// Sixteen processors out of at most sixteen.
    fn default() -> (p: Self)
        ensures
            p.cpu_count == QEMU_Q35_CPU_COUNT,
            p.max_cpu_count == QEMU_Q35_MAX_CPU_COUNT,
    {
        Self { cpu_count: QEMU_Q35_CPU_COUNT, max_cpu_count: QEMU_Q35_MAX_CPU_COUNT }
    }
}

/// Why a profile cannot be turned into tables.
#[derive(Clone, Copy, Debug, PartialEq, Eq, Structural)]
pub enum QemuAcpiError {
    ZeroCpus,
    CpuCountExceedsMax { cpu_count: u8, max_cpu_count: u8 },
    MaxCpuCountTooLarge { max_cpu_count: u8, supported_max: u8 },
}

/// The first rule that `p` breaks, if any: at least one processor, no more
/// processors than the maximum, and a maximum that the template supports.
pub open spec fn profile_error(p: QemuQ35AcpiProfile) -> Option<QemuAcpiError> {
    if p.cpu_count == 0 {
        Some(QemuAcpiError::ZeroCpus)
    } else if p.cpu_count > p.max_cpu_count {
        Some(
            QemuAcpiError::CpuCountExceedsMax {
                cpu_count: p.cpu_count,
                max_cpu_count: p.max_cpu_count,
            },
        )
    } else if p.max_cpu_count > QEMU_Q35_MAX_CPU_COUNT {
        Some(
            QemuAcpiError::MaxCpuCountTooLarge {
                max_cpu_count: p.max_cpu_count,
                supported_max: QEMU_Q35_MAX_CPU_COUNT,
            },
        )
    } else {
        None
    }
}

impl QemuQ35AcpiProfile {
    /// The profile itself when it is valid, else the first rule it breaks.
    fn validate(self) -> (r: Result<Self, QemuAcpiError>)
        ensures
            match profile_error(self) {
                Some(e) => r == Err::<Self, QemuAcpiError>(e),
                None => r == Ok::<Self, QemuAcpiError>(self),
            },
    {
        if self.cpu_count == 0 {
            return Err(QemuAcpiError::ZeroCpus);
        }
        if self.cpu_count > self.max_cpu_count {
            return Err(
                QemuAcpiError::CpuCountExceedsMax {
                    cpu_count: self.cpu_count,
                    max_cpu_count: self.max_cpu_count,
                },
            );
        }
        if self.max_cpu_count > QEMU_Q35_MAX_CPU_COUNT {
            return Err(
                QemuAcpiError::MaxCpuCountTooLarge {
                    max_cpu_count: self.max_cpu_count,
                    supported_max: QEMU_Q35_MAX_CPU_COUNT,
                },
            );
        }
        Ok(self)
    }
}

/// The message of an error, as its `Display` impl would write it.
pub open spec fn acpi_error_message(e: QemuAcpiError) -> Seq<char> {
    match e {
        QemuAcpiError::ZeroCpus => "cpu.topology.cpus must be greater than 0"@,
        QemuAcpiError::CpuCountExceedsMax { cpu_count, max_cpu_count } => "cpu.topology.cpus ("@
            + decimal_chars(cpu_count) + ") must be less than or equal to cpu.topology.maxcpus ("@
            + decimal_chars(max_cpu_count) + ")"@,
        QemuAcpiError::MaxCpuCountTooLarge { max_cpu_count, supported_max } =>
            "cpu.topology.maxcpus ("@ + decimal_chars(max_cpu_count)
            + ") exceeds the current static q35 template limit ("@ + decimal_chars(supported_max)
            + ")"@,
    }
}

impl QemuAcpiError {
    /// The message that describes the error.
    pub fn message(&self) -> (m: String)
        ensures
            m@ == acpi_error_message(*self),
    {
        match self {
            QemuAcpiError::ZeroCpus => String::from_str("cpu.topology.cpus must be greater than 0"),
            QemuAcpiError::CpuCountExceedsMax { cpu_count, max_cpu_count } => {
                let mut m = String::from_str("cpu.topology.cpus (");
                m.append(u8_decimal(*cpu_count).as_str());
                m.append(") must be less than or equal to cpu.topology.maxcpus (");
                m.append(u8_decimal(*max_cpu_count).as_str());
                m.append(")");
                m
            },
            QemuAcpiError::MaxCpuCountTooLarge { max_cpu_count, supported_max } => {
                let mut m = String::from_str("cpu.topology.maxcpus (");
                m.append(u8_decimal(*max_cpu_count).as_str());
                m.append(") exceeds the current static q35 template limit (");
                m.append(u8_decimal(*supported_max).as_str());
                m.append(")");
                m
            },
        }
    }
}

/// A profile is valid exactly when it has at least one processor, no more
/// processors than its maximum, and a maximum that the template supports.
pub proof fn lemma_profile_valid(p: QemuQ35AcpiProfile)
    ensures
        profile_error(p) is None <==> (1 <= p.cpu_count <= p.max_cpu_count
            <= QEMU_Q35_MAX_CPU_COUNT),
{
}

/// Of a valid profile only the processor count shapes the blob: the
/// maximum only decides whether the profile is accepted.
pub proof fn lemma_blob_ignores_max(a: QemuQ35AcpiProfile, b: QemuQ35AcpiProfile, prefix: Seq<u8>, mid: Seq<u8>)
    requires
        profile_error(a) is None,
        profile_error(b) is None,
        a.cpu_count == b.cpu_count,
    ensures
        q35_blob(a.cpu_count, prefix, mid) == q35_blob(b.cpu_count, prefix, mid),
{
}

// ---------------------------------------------------------------- DSDT template

/// The static parts of the DSDT: everything before the processor objects
/// (the table header among it), and the part between the processor objects
/// and the generated end.
pub struct QemuQ35DsdtTemplate {
    prefix: Vec<u8>,
    mid: Vec<u8>,
}

impl QemuQ35DsdtTemplate {
    #[verifier::type_invariant]
    spec fn lengths_fit(self) -> bool {
        self.prefix@.len() == DSDT_PROCESSOR_BLOCK_OFFSET && self.mid@.len() == DSDT_MID_LEN
    }

    /// The part before the processor objects.
    pub closed spec fn prefix_bytes(&self) -> Seq<u8> {
        self.prefix@
    }

    /// The part between the processor objects and the generated end.
    pub closed spec fn mid_bytes(&self) -> Seq<u8> {
        self.mid@
    }

    /// A template from its two parts, when they have the lengths that the
    /// layout needs.
    pub fn from_bytes(prefix: Vec<u8>, mid: Vec<u8>) -> (t: Option<Self>)
        ensures
            t is Some <==> (prefix@.len() == DSDT_PROCESSOR_BLOCK_OFFSET && mid@.len()
                == DSDT_MID_LEN),
            t matches Some(t) ==> t.prefix_bytes() == prefix@ && t.mid_bytes() == mid@,
    {
        if prefix.len() == DSDT_PROCESSOR_BLOCK_OFFSET && mid.len() == DSDT_MID_LEN {
            Some(QemuQ35DsdtTemplate { prefix, mid })
        } else {
            None
        }
    }

    /// A template from the hex text of its two parts, when both are hex text
    /// and stand for parts of the lengths that the layout needs.
    pub fn from_hex(prefix_hex: &str, mid_hex: &str) -> (t: Option<Self>)
        ensures
            t is Some <==> (hex_text_ok(prefix_hex.spec_bytes()) && hex_text_ok(
                mid_hex.spec_bytes(),
            ) && spec_decode_hex(prefix_hex.spec_bytes()).len() == DSDT_PROCESSOR_BLOCK_OFFSET
                && spec_decode_hex(mid_hex.spec_bytes()).len() == DSDT_MID_LEN),
            t matches Some(t) ==> t.prefix_bytes() == spec_decode_hex(prefix_hex.spec_bytes())
                && t.mid_bytes() == spec_decode_hex(mid_hex.spec_bytes()),
    {
        if !is_hex_text(prefix_hex) || !is_hex_text(mid_hex) {
            return None;
        }
        let prefix = decode_hex(prefix_hex);
        let mid = decode_hex(mid_hex);
        Self::from_bytes(prefix, mid)
    }
}

// ---------------------------------------------------------------- local terms

/// `IRQNoFlags () { irq }`: a descriptor with the bit of `irq` set in its mask.
pub open spec fn aml_irq_no_flags(irq: u8) -> Seq<u8> {
    seq![IRQ_NO_FLAGS_DESC] + le16((1u16 << irq) as u16)
}

/// `Return (value)`.
pub open spec fn aml_return(value: Seq<u8>) -> Seq<u8> {
    seq![RETURN_OP] + value
}

/// `Processor (name, proc_id, 0, 0) { children }`.
pub open spec fn aml_processor(name: Seq<u8>, proc_id: u8, children: Seq<u8>) -> Seq<u8> {
    aml_package(
        seq![EXT_OP_PREFIX, PROCESSOR_OP],
        name + seq![proc_id] + le32(0) + seq![0u8] + children,
    )
}

/// An IRQ descriptor without flags.
struct IrqNoFlags {
    irq: u8,
}

impl IrqNoFlags {
    fn new(irq: u8) -> (s: Self)
        ensures
            s.irq == irq,
    {
        Self { irq }
    }

    fn to_aml_bytes(&self, sink: &mut Vec<u8>)
        requires
            self.irq < 16,
        ensures
            final(sink)@ == old(sink)@ + aml_irq_no_flags(self.irq),
    {
        sink.push(IRQ_NO_FLAGS_DESC);
        push_u16(sink, 1u16 << self.irq);
        assert(sink@ =~= old(sink)@ + aml_irq_no_flags(self.irq));
    }
}

/// `Return` of an encoded value.
struct ReturnOp<'a> {
    value: &'a [u8],
}

impl<'a> ReturnOp<'a> {
    fn new(value: &'a [u8]) -> (s: Self)
        ensures
            s.value@ == value@,
    {
        Self { value }
    }

    fn to_aml_bytes(&self, sink: &mut Vec<u8>)
        ensures
            final(sink)@ == old(sink)@ + aml_return(self.value@),
    {
        sink.push(RETURN_OP);
        push_slice(sink, self.value);
        assert(sink@ =~= old(sink)@ + aml_return(self.value@));
    }
}

/// A `Processor` object and the encoding of the terms inside it.
struct Processor {
    name: [u8; 4],
    proc_id: u8,
    children: Vec<u8>,
}

impl Processor {
    fn new(name: [u8; 4], proc_id: u8, children: Vec<u8>) -> (s: Self)
        ensures
            s.name == name,
            s.proc_id == proc_id,
            s.children@ == children@,
    {
        Self { name, proc_id, children }
    }

    fn to_aml_bytes(&self, sink: &mut Vec<u8>)
        requires
            self.children@.len() <= usize::MAX - 32,
        ensures
            final(sink)@ == old(sink)@ + aml_processor(self.name@, self.proc_id, self.children@),
    {
        let mut body: Vec<u8> = Vec::new();
        push_slice(&mut body, &self.name);
        body.push(self.proc_id);
        push_u32(&mut body, 0u32);
        body.push(0u8);
        push_slice(&mut body, self.children.as_slice());
        sink.push(EXT_OP_PREFIX);
        sink.push(PROCESSOR_OP);
        let len = pkg_length(body.len(), true);
        push_slice(sink, len.as_slice());
        push_slice(sink, body.as_slice());
        assert(sink@ =~= old(sink)@ + aml_processor(self.name@, self.proc_id, self.children@));
    }
}

// ---------------------------------------------------------------- processors

/// An uppercase hexadecimal digit.
pub open spec fn upper_hex_digit(d: u8) -> u8 {
    if d < 10 {
        (0x30 + d) as u8
    } else {
        (0x41 + d - 10) as u8
    }
}

/// `Cxxx`: `C` and the three-digit uppercase hexadecimal form of `uid`.
pub open spec fn spec_cpu_name(uid: u8) -> Seq<u8> {
    seq![0x43u8, 0x30u8, upper_hex_digit(uid / 16), upper_hex_digit(uid % 16)]
}

/// The data of a processor's `_MAT` buffer: its local APIC entry.
pub open spec fn cpu_mat_data(uid: u8) -> Seq<u8> {
    seq![0x00u8, 0x08u8, uid, uid, 0x01u8, 0x00u8, 0x00u8, 0x00u8]
}

/// `Method (_STA, 0, Serialized) { Return (CSTA (uid)) }`.
pub open spec fn cpu_sta(uid: u8) -> Seq<u8> {
    aml_method(STA@, 0, true, aml_return(aml_method_call(CSTA@, aml_byte_const(uid))))
}

/// `Method (_EJ0, 1, NotSerialized) { CEJ0 (uid) }`.
pub open spec fn cpu_ej0(uid: u8) -> Seq<u8> {
    aml_method(EJ0@, 1, false, aml_method_call(CEJ0@, aml_byte_const(uid)))
}

/// `Method (_OST, 3, Serialized) { COST (uid, Arg0, Arg1, Arg2) }`.
pub open spec fn cpu_ost(uid: u8) -> Seq<u8> {
    aml_method(
        OST@,
        3,
        true,
        aml_method_call(COST@, aml_byte_const(uid) + aml_arg(0) + aml_arg(1) + aml_arg(2)),
    )
}

/// The terms inside the processor object of `uid`: `_STA`, `_MAT`, `_EJ0`
/// for every processor but the first, and `_OST`.
pub open spec fn cpu_children(uid: u8) -> Seq<u8> {
    cpu_sta(uid) + aml_name(MAT@, aml_buffer(cpu_mat_data(uid))) + (if uid != 0 {
        cpu_ej0(uid)
    } else {
        Seq::<u8>::empty()
    }) + cpu_ost(uid)
}

/// The processor object of `uid`.
pub open spec fn cpu_processor(uid: u8) -> Seq<u8> {
    aml_processor(spec_cpu_name(uid), uid, cpu_children(uid))
}

/// The processor objects of the first `n` processors, in order.
pub open spec fn processor_block(n: nat) -> Seq<u8>
    decreases n,
{
    if n == 0 {
        Seq::<u8>::empty()
    } else {
        processor_block((n - 1) as nat) + cpu_processor((n - 1) as u8)
    }
}

pub proof fn lemma_cpu_children_len(uid: u8)
    ensures
        cpu_children(uid).len() == if uid == 0 {
            45int
        } else if uid == 1 {
            57int
        } else {
            60int
        },
{
}

pub proof fn lemma_cpu_processor_len(uid: u8)
    ensures
        cpu_processor(uid).len() == if uid == 0 {
            58int
        } else if uid == 1 {
            71int
        } else {
            74int
        },
{
    lemma_cpu_children_len(uid);
}

/// Length of the processor objects of the first `n` processors.
pub open spec fn processor_block_len(n: nat) -> int {
    if n == 0 {
        0
    } else if n == 1 {
        58
    } else {
        129 + 74 * (n - 2)
    }
}

pub proof fn lemma_processor_block_len(n: nat)
    requires
        n <= 256,
    ensures
        processor_block(n).len() == processor_block_len(n),
    decreases n,
{
    if n > 0 {
        lemma_processor_block_len((n - 1) as nat);
        lemma_cpu_processor_len((n - 1) as u8);
    }
}

/// Distinct processors get distinct object names.
pub proof fn lemma_cpu_names_distinct(a: u8, b: u8)
    requires
        a != b,
    ensures
        spec_cpu_name(a) != spec_cpu_name(b),
{
    assert(a == (a / 16) * 16 + a % 16);
    assert(b == (b / 16) * 16 + b % 16);
    if a / 16 != b / 16 {
        assert(spec_cpu_name(a)[2] != spec_cpu_name(b)[2]);
    } else {
        assert(spec_cpu_name(a)[3] != spec_cpu_name(b)[3]);
    }
}

/// The first bytes of the processor object of `uid`: the opcode, the
/// package length, the name, the processor ID and the empty `PBlk`.
pub open spec fn cpu_processor_header(uid: u8) -> Seq<u8> {
    let len = if uid == 0 {
        seq![0x38u8]
    } else if uid == 1 {
        seq![0x45u8, 0x04u8]
    } else {
        seq![0x48u8, 0x04u8]
    };
    seq![EXT_OP_PREFIX, PROCESSOR_OP] + len + spec_cpu_name(uid) + seq![uid, 0u8, 0u8, 0u8, 0u8, 0u8]
}

proof fn lemma_cpu_processor_header(uid: u8)
    ensures
        cpu_processor(uid).subrange(0, cpu_processor_header(uid).len() as int)
            == cpu_processor_header(uid),
{
    lemma_cpu_children_len(uid);
    assert(cpu_processor(uid).subrange(0, cpu_processor_header(uid).len() as int)
        =~= cpu_processor_header(uid));
}

/// A block of processor objects begins with every smaller block.
pub proof fn lemma_processor_block_prefix(n: nat, m: nat)
    requires
        n <= m <= 256,
    ensures
        processor_block(m).subrange(0, processor_block_len(n)) == processor_block(n),
    decreases m,
{
    lemma_processor_block_len(m);
    lemma_processor_block_len(n);
    if n == m {
        assert(processor_block(m).subrange(0, processor_block_len(n)) =~= processor_block(m));
    } else {
        let prev = processor_block((m - 1) as nat);
        let last = cpu_processor((m - 1) as u8);
        lemma_processor_block_len((m - 1) as nat);
        lemma_processor_block_prefix(n, (m - 1) as nat);
        assert((prev + last).subrange(0, processor_block_len(n)) =~= prev.subrange(
            0,
            processor_block_len(n),
        ));
    }
}

/// Where a sequence begins with `a + c`, `c` follows `a`.
proof fn lemma_concat_tail(s: Seq<u8>, a: Seq<u8>, c: Seq<u8>)
    requires
        a.len() + c.len() <= s.len(),
        s.subrange(0, (a.len() + c.len()) as int) == a + c,
    ensures
        s.subrange(a.len() as int, (a.len() + c.len()) as int) == c,
{
    let e = (a.len() + c.len()) as int;
    assert(s.subrange(a.len() as int, e) =~= (a + c).subrange(a.len() as int, e));
    assert((a + c).subrange(a.len() as int, e) =~= c);
}

/// The object of processor `i` stands at `processor_block_len(i)` in every
/// block that holds it.
pub proof fn lemma_processor_block_at(i: nat, m: nat)
    requires
        i < m <= 256,
    ensures
        processor_block(m).subrange(processor_block_len(i), processor_block_len(i + 1))
            == cpu_processor(i as u8),
{
    let a = processor_block(i);
    let c = cpu_processor(i as u8);
    lemma_processor_block_prefix(i + 1, m);
    lemma_processor_block_len(i);
    lemma_processor_block_len(i + 1);
    lemma_processor_block_len(m);
    assert(processor_block(i + 1) == a + c);
    lemma_concat_tail(processor_block(m), a, c);
}

/// The first bytes of a sequence that begins at `o` with `t` are the first
/// bytes of `t`.
proof fn lemma_header_within(s: Seq<u8>, o: int, t: Seq<u8>, h: Seq<u8>)
    requires
        0 <= o,
        o + t.len() <= s.len(),
        s.subrange(o, o + t.len()) == t,
        h.len() <= t.len(),
        t.subrange(0, h.len() as int) == h,
    ensures
        s.subrange(o, o + h.len()) == h,
{
    assert(s.subrange(o, o + h.len()) =~= s.subrange(o, o + t.len()).subrange(
        0,
        h.len() as int,
    ));
}

/// The object of processor `i` opens with its header at
/// `processor_block_len(i)` in every block that holds it.
proof fn lemma_processor_header_at(i: nat, m: nat)
    requires
        i < m <= 256,
    ensures
        processor_block(m).subrange(
            processor_block_len(i),
            processor_block_len(i) + cpu_processor_header(i as u8).len(),
        ) == cpu_processor_header(i as u8),
{
    let t = cpu_processor(i as u8);
    let h = cpu_processor_header(i as u8);
    assert(processor_block_len(i) + t.len() == processor_block_len(i + 1)
        && h.len() <= t.len()) by {
        lemma_cpu_processor_len(i as u8);
    }
    assert(processor_block_len(i + 1) <= processor_block(m).len()) by {
        lemma_processor_block_len(m);
    }
    lemma_processor_block_at(i, m);
    lemma_cpu_processor_header(i as u8);
    lemma_header_within(processor_block(m), processor_block_len(i), t, h);
}

/// A block of processor objects begins with every smaller block, and the
/// object of processor `i` opens with its header at `processor_block_len(i)`:
/// at 0 for the first processor, at 58 for the second and at `74 * i - 19`
/// for every later one.
pub proof fn lemma_processor_block_layout(n: nat, m: nat, i: nat)
    requires
        n <= m <= 256,
        i < m,
    ensures
        processor_block(m).subrange(0, processor_block_len(n)) == processor_block(n),
        processor_block(n).len() == processor_block_len(n),
        processor_block(m).subrange(processor_block_len(i), processor_block_len(i + 1))
            == cpu_processor(i as u8),
        processor_block(m).subrange(
            processor_block_len(i),
            processor_block_len(i) + cpu_processor_header(i as u8).len(),
        ) == cpu_processor_header(i as u8),
        i >= 2 ==> processor_block_len(i) == 74 * i - 19,
{
    lemma_processor_block_prefix(n, m);
    lemma_processor_block_len(n);
    lemma_processor_block_at(i, m);
    lemma_processor_header_at(i, m);
}

/// The name of the processor object of `uid`: `C` and three uppercase
/// hexadecimal digits.
fn cpu_name(uid: u8) -> (name: [u8; 4])
    ensures
        name@ == spec_cpu_name(uid),
{
    let hi: u8 = uid / 16;
    let lo: u8 = uid % 16;
    let d1: u8 = if hi < 10 { 0x30 + hi } else { 0x41 + hi - 10 };
    let d2: u8 = if lo < 10 { 0x30 + lo } else { 0x41 + lo - 10 };
    let name: [u8; 4] = [0x43u8, 0x30u8, d1, d2];
    assert(name@ =~= spec_cpu_name(uid));
    name
}

/// The `_MAT` buffer of processor `uid`.
fn cpu_mat(uid: u8) -> (buffer: Vec<u8>)
    ensures
        buffer@ == aml_buffer(cpu_mat_data(uid)),
{
    let data: [u8; 8] = [0x00u8, 0x08u8, uid, uid, 0x01u8, 0x00u8, 0x00u8, 0x00u8];
    assert(data@ =~= cpu_mat_data(uid));
    let mut buffer: Vec<u8> = Vec::new();
    append_buffer(&mut buffer, &data);
    buffer
}

/// The terms inside the processor object of `uid`.
fn cpu_children_bytes(uid: u8) -> (children: Vec<u8>)
    ensures
        children@ == cpu_children(uid),
{
    let mut uid_arg: Vec<u8> = Vec::new();
    aml_byte(&mut uid_arg, uid);

    let mut sta_call: Vec<u8> = Vec::new();
    append_method_call(&mut sta_call, &CSTA, uid_arg.as_slice());
    let sta_ret = ReturnOp::new(sta_call.as_slice());
    let mut sta_body: Vec<u8> = Vec::new();
    sta_ret.to_aml_bytes(&mut sta_body);

    let mut children: Vec<u8> = Vec::new();
    append_method(&mut children, &STA, 0, true, sta_body.as_slice());

    let mat_buf = cpu_mat(uid);
    append_name(&mut children, &MAT, mat_buf.as_slice());

    if uid != 0 {
        let mut ej0_call: Vec<u8> = Vec::new();
        append_method_call(&mut ej0_call, &CEJ0, uid_arg.as_slice());
        append_method(&mut children, &EJ0, 1, false, ej0_call.as_slice());
    }
    let mut ost_args: Vec<u8> = Vec::new();
    push_slice(&mut ost_args, uid_arg.as_slice());
    append_arg(&mut ost_args, 0);
    append_arg(&mut ost_args, 1);
    append_arg(&mut ost_args, 2);
    let mut ost_call: Vec<u8> = Vec::new();
    append_method_call(&mut ost_call, &COST, ost_args.as_slice());
    append_method(&mut children, &OST, 3, true, ost_call.as_slice());
    assert(children@ =~= cpu_children(uid));
    children
}

/// The processor objects of processors `0..max_cpu_count`, each with its
/// `_STA`, `_MAT`, `_EJ0` (but the first) and `_OST` methods.
pub fn build_qemu_dsdt_processor_block(max_cpu_count: u8) -> (bytes: Vec<u8>)
    ensures
        bytes@ == processor_block(max_cpu_count as nat),
        bytes@.len() == processor_block_len(max_cpu_count as nat),
{
    let mut bytes: Vec<u8> = Vec::new();
    let mut uid: u8 = 0;
    while uid < max_cpu_count
        invariant
            uid <= max_cpu_count,
            bytes@ == processor_block(uid as nat),
        decreases max_cpu_count - uid,
    {
        let children = cpu_children_bytes(uid);
        proof {
            lemma_cpu_children_len(uid);
        }
        let processor = Processor::new(cpu_name(uid), uid, children);
        processor.to_aml_bytes(&mut bytes);
        uid = uid + 1;
    }
    proof {
        lemma_processor_block_len(max_cpu_count as nat);
    }
    bytes
}

// ---------------------------------------------------------------- DSDT tail

/// `Device (KBD_)`: the PS/2 keyboard.
pub open spec fn kbd_device() -> Seq<u8> {
    aml_device(
        KBD@,
        aml_name(HID@, aml_eisa_name(PNP0303@)) + aml_name(STA@, aml_byte_const(0x0f)) + aml_name(
            CRS@,
            aml_resource_template(
                aml_io(0x60, 0x60, 1, 1) + aml_io(0x64, 0x64, 1, 1) + aml_irq_no_flags(1),
            ),
        ),
    )
}

/// `Device (MOU_)`: the PS/2 mouse.
pub open spec fn mou_device() -> Seq<u8> {
    aml_device(
        MOU@,
        aml_name(HID@, aml_eisa_name(PNP0F13@)) + aml_name(STA@, aml_byte_const(0x0f)) + aml_name(
            CRS@,
            aml_resource_template(aml_irq_no_flags(12)),
        ),
    )
}

/// `Device (COM1)`: the first serial port.
pub open spec fn com1_device() -> Seq<u8> {
    aml_device(
        COM1@,
        aml_name(HID@, aml_eisa_name(PNP0501@)) + aml_name(UID@, aml_byte_const(1)) + aml_name(
            STA@,
            aml_byte_const(0x0f),
        ) + aml_name(
            CRS@,
            aml_resource_template(aml_io(0x3f8, 0x3f8, 0, 8) + aml_irq_no_flags(4)),
        ),
    )
}

/// `Device (RTC_)`: the real-time clock.
pub open spec fn rtc_device() -> Seq<u8> {
    aml_device(
        RTC@,
        aml_name(HID@, aml_eisa_name(PNP0B00@)) + aml_name(
            CRS@,
            aml_resource_template(aml_io(0x70, 0x70, 1, 8) + aml_irq_no_flags(8)),
        ),
    )
}

/// `Device (SFA_)` and `Device (SFB_)`: functions 2 and 3 of device 0x1f.
pub open spec fn sf_device(name: Seq<u8>, adr: u32) -> Seq<u8> {
    aml_device(name, aml_name(ADR@, aml_dword_const(adr)))
}

/// `Scope (_GPE) { Method (_E01, 0, NotSerialized) {} }`.
pub open spec fn gpe_scope() -> Seq<u8> {
    aml_scope(GPE@, aml_method(E01@, 0, false, Seq::<u8>::empty()))
}

/// The generated end of the DSDT.
#[verifier::opaque]
pub open spec fn dsdt_generated_tail() -> Seq<u8> {
    kbd_device() + mou_device() + com1_device() + rtc_device() + sf_device(SFA@, 0x001f_0002)
        + sf_device(SFB@, 0x001f_0003) + gpe_scope()
}

/// An EISA ID whose digits are not all zero takes the double-word form.
proof fn lemma_eisa_dword(id: Seq<u8>)
    requires
        eisa_id_ok(id),
        !(id[3] == 0x30 && id[4] == 0x30 && id[5] == 0x30 && id[6] == 0x30),
    ensures
        aml_eisa_name(id).len() == 5,
{
    let a = (id[0] - 0x40) as u8;
    let b = (id[1] - 0x40) as u8;
    let c = (id[2] - 0x40) as u8;
    let d3 = crate::hex::hex_value(id[3]);
    let d4 = crate::hex::hex_value(id[4]);
    let d5 = crate::hex::hex_value(id[5]);
    let d6 = crate::hex::hex_value(id[6]);
    assert(d3 < 16 && d4 < 16 && d5 < 16 && d6 < 16);
    assert(d3 != 0 || d4 != 0 || d5 != 0 || d6 != 0);
    let raw: u32 = ((a as u32) << 26u32) | ((b as u32) << 21u32) | ((c as u32) << 16u32) | ((
    d3 as u32) << 12u32) | ((d4 as u32) << 8u32) | ((d5 as u32) << 4u32) | (d6 as u32);
    assert(raw == crate::aml::eisa_compressed(id));
    assert(((raw << 24u32) | ((raw << 8u32) & 0x00ff_0000) | ((raw >> 8u32) & 0x0000_ff00) | (raw
        >> 24u32)) > 0xffff) by (bit_vector)
        requires
            raw == ((a as u32) << 26u32) | ((b as u32) << 21u32) | ((c as u32) << 16u32) | ((
            d3 as u32) << 12u32) | ((d4 as u32) << 8u32) | ((d5 as u32) << 4u32) | (d6 as u32),
            d3 != 0 || d4 != 0 || d5 != 0 || d6 != 0,
            d3 < 16,
            d4 < 16,
            d5 < 16,
            d6 < 16,
    ;
}

proof fn lemma_eisa_ids()
    ensures
        eisa_id_ok(PNP0303@),
        eisa_id_ok(PNP0F13@),
        eisa_id_ok(PNP0501@),
        eisa_id_ok(PNP0B00@),
        aml_eisa_name(PNP0303@).len() == 5,
        aml_eisa_name(PNP0F13@).len() == 5,
        aml_eisa_name(PNP0501@).len() == 5,
        aml_eisa_name(PNP0B00@).len() == 5,
{
    assert(eisa_id_ok(PNP0303@));
    assert(eisa_id_ok(PNP0F13@));
    assert(eisa_id_ok(PNP0501@));
    assert(eisa_id_ok(PNP0B00@));
    lemma_eisa_dword(PNP0303@);
    lemma_eisa_dword(PNP0F13@);
    lemma_eisa_dword(PNP0501@);
    lemma_eisa_dword(PNP0B00@);
}

pub proof fn lemma_dsdt_generated_tail_len()
    ensures
        dsdt_generated_tail().len() == 230,
{
    reveal(dsdt_generated_tail);
    lemma_eisa_ids();
    assert(kbd_device().len() == 54);
    assert(mou_device().len() == 38);
    assert(com1_device().len() == 52);
    assert(rtc_device().len() == 39);
    assert(sf_device(SFA@, 0x001f_0002).len() == 17);
    assert(sf_device(SFB@, 0x001f_0003).len() == 17);
    assert(gpe_scope().len() == 13);
}

/// Appends `Name (name, <value>)` where the value is a byte constant.
fn append_name_byte(sink: &mut Vec<u8>, name: &[u8; 4], value: u8)
    ensures
        final(sink)@ == old(sink)@ + aml_name(name@, aml_byte_const(value)),
{
    let mut inner: Vec<u8> = Vec::new();
    aml_byte(&mut inner, value);
    append_name(sink, name, inner.as_slice());
}

/// Appends `Name (_HID, EISAID (id))`.
fn append_hid(sink: &mut Vec<u8>, id: &[u8; 7])
    requires
        eisa_id_ok(id@),
    ensures
        final(sink)@ == old(sink)@ + aml_name(HID@, aml_eisa_name(id@)),
{
    let mut inner: Vec<u8> = Vec::new();
    append_eisa_name(&mut inner, id);
    append_name(sink, &HID, inner.as_slice());
}

/// Appends `Name (_CRS, ResourceTemplate () { descriptors })`.
fn append_crs(sink: &mut Vec<u8>, descriptors: &[u8])
    requires
        descriptors@.len() <= 0x1000,
    ensures
        final(sink)@ == old(sink)@ + aml_name(CRS@, aml_resource_template(descriptors@)),
{
    let mut inner: Vec<u8> = Vec::new();
    append_resource_template(&mut inner, descriptors);
    append_name(sink, &CRS, inner.as_slice());
}

/// The generated end of the DSDT: keyboard, mouse, serial port, RTC, the
/// two LPC functions and the GPE scope.
pub fn build_qemu_dsdt_generated_tail() -> (bytes: Vec<u8>)
    ensures
        bytes@ == dsdt_generated_tail(),
        bytes@.len() == 230,
{
    proof {
        lemma_eisa_ids();
        lemma_dsdt_generated_tail_len();
    }
    // Keyboard.
    let mut kbd_res: Vec<u8> = Vec::new();
    append_io(&mut kbd_res, 0x60, 0x60, 1, 1);
    append_io(&mut kbd_res, 0x64, 0x64, 1, 1);
    IrqNoFlags::new(1).to_aml_bytes(&mut kbd_res);
    let mut kbd: Vec<u8> = Vec::new();
    append_hid(&mut kbd, &PNP0303);
    append_name_byte(&mut kbd, &STA, 0x0f);
    append_crs(&mut kbd, kbd_res.as_slice());

    // Mouse.
    let mut mou_res: Vec<u8> = Vec::new();
    IrqNoFlags::new(12).to_aml_bytes(&mut mou_res);
    let mut mou: Vec<u8> = Vec::new();
    append_hid(&mut mou, &PNP0F13);
    append_name_byte(&mut mou, &STA, 0x0f);
    append_crs(&mut mou, mou_res.as_slice());

    // Serial port.
    let mut com1_res: Vec<u8> = Vec::new();
    append_io(&mut com1_res, 0x3f8, 0x3f8, 0, 8);
    IrqNoFlags::new(4).to_aml_bytes(&mut com1_res);
    let mut com1: Vec<u8> = Vec::new();
    append_hid(&mut com1, &PNP0501);
    append_name_byte(&mut com1, &UID, 1);
    append_name_byte(&mut com1, &STA, 0x0f);
    append_crs(&mut com1, com1_res.as_slice());

    // Real-time clock.
    let mut rtc_res: Vec<u8> = Vec::new();
    append_io(&mut rtc_res, 0x70, 0x70, 1, 8);
    IrqNoFlags::new(8).to_aml_bytes(&mut rtc_res);
    let mut rtc: Vec<u8> = Vec::new();
    append_hid(&mut rtc, &PNP0B00);
    append_crs(&mut rtc, rtc_res.as_slice());

    // LPC functions.
    let mut sfa_adr: Vec<u8> = Vec::new();
    aml_dword(&mut sfa_adr, 0x001f_0002);
    let mut sfa: Vec<u8> = Vec::new();
    append_name(&mut sfa, &ADR, sfa_adr.as_slice());
    let mut sfb_adr: Vec<u8> = Vec::new();
    aml_dword(&mut sfb_adr, 0x001f_0003);
    let mut sfb: Vec<u8> = Vec::new();
    append_name(&mut sfb, &ADR, sfb_adr.as_slice());

    // General-purpose events.
    let mut e01: Vec<u8> = Vec::new();
    append_method(&mut e01, &E01, 0, false, &[]);

    let mut bytes: Vec<u8> = Vec::new();
    append_device(&mut bytes, &KBD, kbd.as_slice());
    append_device(&mut bytes, &MOU, mou.as_slice());
    append_device(&mut bytes, &COM1, com1.as_slice());
    append_device(&mut bytes, &RTC, rtc.as_slice());
    append_device(&mut bytes, &SFA, sfa.as_slice());
    append_device(&mut bytes, &SFB, sfb.as_slice());
    append_scope(&mut bytes, &GPE, e01.as_slice());
    assert(bytes@ =~= dsdt_generated_tail()) by {
        reveal(dsdt_generated_tail);
    }
    bytes
}

// ---------------------------------------------------------------- DSDT

/// The DSDT: the template's first part, the processor objects of all
/// supported processors, the template's middle part and the generated end.
#[verifier::opaque]
pub open spec fn spec_dsdt(prefix: Seq<u8>, mid: Seq<u8>) -> Seq<u8> {
    prefix + processor_block(QEMU_Q35_MAX_CPU_COUNT as nat) + mid + dsdt_generated_tail()
}

/// Builds the DSDT from the template.
pub fn build_qemu_dsdt(template: &QemuQ35DsdtTemplate) -> (bytes: Vec<u8>)
    ensures
        bytes@ == spec_dsdt(template.prefix_bytes(), template.mid_bytes()),
        bytes@.len() == DSDT_LEN,
{
    proof {
        use_type_invariant(template);
        reveal(spec_dsdt);
    }
    let mut bytes: Vec<u8> = Vec::new();
    push_slice(&mut bytes, template.prefix.as_slice());
    assert(bytes@.len() == DSDT_PROCESSOR_BLOCK_OFFSET);
    let block = build_qemu_dsdt_processor_block(QEMU_Q35_MAX_CPU_COUNT);
    push_slice(&mut bytes, block.as_slice());
    assert(bytes@.len() == DSDT_POST_PROCESSOR_BLOCK_OFFSET);
    push_slice(&mut bytes, template.mid.as_slice());
    assert(bytes@.len() == DSDT_GENERATED_TAIL_OFFSET);
    let tail = build_qemu_dsdt_generated_tail();
    push_slice(&mut bytes, tail.as_slice());
    bytes
}

// ---------------------------------------------------------------- tables

/// The header of a table of QEMU's, with the checksum byte cleared.
pub open spec fn qemu_header(signature: Seq<u8>, length: u32, revision: u8) -> Seq<u8> {
    header_image(
        signature,
        length,
        revision,
        QEMU_OEM_ID@,
        QEMU_OEM_TABLE_ID@,
        QEMU_OEM_REVISION,
        QEMU_CREATOR_ID@,
        QEMU_CREATOR_REVISION@,
    )
}

proof fn lemma_image_splice(s: Seq<u8>, off: int, b: Seq<u8>)
    requires
        10 <= off,
        off + b.len() <= s.len(),
    ensures
        image(splice(s, off, b)) == splice(image(s), off, b),
{
    assert(image(splice(s, off, b)) =~= splice(image(s), off, b));
}

proof fn lemma_splice_tail(h: Seq<u8>, r: Seq<u8>, off: int, b: Seq<u8>)
    requires
        h.len() <= off,
        off + b.len() <= h.len() + r.len(),
    ensures
        splice(h + r, off, b) == h + splice(r, off - h.len(), b),
{
    assert(splice(h + r, off, b) =~= h + splice(r, off - h.len(), b));
}

/// Writing into a table's body leaves its header as it was.
proof fn lemma_body_write(s: Seq<u8>, h: Seq<u8>, rest: Seq<u8>, off: int, b: Seq<u8>)
    requires
        image(s) == h + rest,
        h.len() == HEADER_LEN,
        HEADER_LEN <= off,
        off + b.len() <= s.len(),
    ensures
        image(splice(s, off, b)) == h + splice(rest, off - HEADER_LEN, b),
{
    lemma_image_splice(s, off, b);
    lemma_splice_tail(h, rest, off, b);
}

/// Appending to a table of QEMU's appends to its body and records the new
/// length in its header.
proof fn lemma_qemu_append(s: Seq<u8>, signature: Seq<u8>, revision: u8, rest: Seq<u8>, b: Seq<u8>)
    requires
        signature.len() == 4,
        HEADER_LEN <= s.len(),
        s.len() + b.len() <= u32::MAX,
        image(s) == qemu_header(signature, s.len() as u32, revision) + rest,
    ensures
        image(splice(s + b, 4, le32((s.len() + b.len()) as u32))) == qemu_header(
            signature,
            (s.len() + b.len()) as u32,
            revision,
        ) + (rest + b),
{
    let n = (s.len() + b.len()) as u32;
    assert(image(splice(s + b, 4, le32(n))) =~= splice(image(s) + b, 4, le32(n)));
    assert(splice(qemu_header(signature, s.len() as u32, revision) + rest + b, 4, le32(n))
        =~= qemu_header(signature, n, revision) + (rest + b));
}

/// Sets the creator fields of a table to QEMU's.
fn set_qemu_creator(sdt: &mut Sdt)
    requires
        old(sdt).wf(),
    ensures
        final(sdt).wf(),
        final(sdt).bytes().len() == old(sdt).bytes().len(),
        image(final(sdt).bytes()) == image(
            splice(splice(old(sdt).bytes(), 28, QEMU_CREATOR_ID@), 32, QEMU_CREATOR_REVISION@),
        ),
{
    sdt.write_bytes(28, &QEMU_CREATOR_ID);
    let ghost mid = sdt.bytes();
    sdt.write_bytes(32, &QEMU_CREATOR_REVISION);
    proof {
        lemma_image_splice(mid, 32, QEMU_CREATOR_REVISION@);
        lemma_image_splice(old(sdt).bytes(), 28, QEMU_CREATOR_ID@);
        lemma_image_splice(
            splice(old(sdt).bytes(), 28, QEMU_CREATOR_ID@),
            32,
            QEMU_CREATOR_REVISION@,
        );
    }
}

/// A new table of QEMU's: its header, then zeros.
fn new_qemu_table(signature: [u8; 4], length: u32, revision: u8) -> (sdt: Sdt)
    requires
        length >= HEADER_LEN,
    ensures
        sdt.wf(),
        sdt.bytes().len() == length,
        image(sdt.bytes()) == qemu_header(signature@, length, revision) + zeros(
            (length - HEADER_LEN) as nat,
        ),
{
    let mut sdt = Sdt::new(
        signature,
        length,
        revision,
        QEMU_OEM_ID,
        QEMU_OEM_TABLE_ID,
        QEMU_OEM_REVISION,
    );
    let ghost before = sdt.bytes();
    set_qemu_creator(&mut sdt);
    proof {
        let rest = zeros((length - HEADER_LEN) as nat);
        lemma_image_splice(before, 28, QEMU_CREATOR_ID@);
        lemma_image_splice(splice(before, 28, QEMU_CREATOR_ID@), 32, QEMU_CREATOR_REVISION@);
        assert(splice(splice(image(before), 28, QEMU_CREATOR_ID@), 32, QEMU_CREATOR_REVISION@)
            =~= qemu_header(signature@, length, revision) + rest);
    }
    sdt
}

// ---------------------------------------------------------------- FADT

// ---------------------------------------------------------------- MADT, MCFG, WAET, RSDT

/// A processor's local APIC.
struct LocalApicEntry {
    entry_type: u8,
    length: u8,
    processor_uid: u8,
    apic_id: u8,
    flags: u32,
}

/// The I/O APIC.
struct IoApicEntry {
    entry_type: u8,
    length: u8,
    io_apic_id: u8,
    reserved: u8,
    io_apic_addr: u32,
    gsi_base: u32,
}

/// An interrupt source override.
struct InterruptSourceOverrideEntry {
    entry_type: u8,
    length: u8,
    bus: u8,
    source: u8,
    gsi: u32,
    flags: u16,
}

/// A local APIC NMI.
struct LocalApicNmiEntry {
    entry_type: u8,
    length: u8,
    processor_uid: u8,
    flags: u16,
    lint: u8,
}

/// The ECAM window of a PCI segment.
struct EcamEntry {
    base_addr: u64,
    segment: u16,
    start_bus: u8,
    end_bus: u8,
    reserved: [u8; 4],
}

impl LocalApicEntry {
    fn to_bytes(&self) -> (b: Vec<u8>)
        ensures
            b@ == seq![self.entry_type, self.length, self.processor_uid, self.apic_id] + le32(
                self.flags,
            ),
    {
        let mut b: Vec<u8> = Vec::new();
        b.push(self.entry_type);
        b.push(self.length);
        b.push(self.processor_uid);
        b.push(self.apic_id);
        push_u32(&mut b, self.flags);
        assert(b@ =~= seq![self.entry_type, self.length, self.processor_uid, self.apic_id]
            + le32(self.flags));
        b
    }
}

impl IoApicEntry {
    fn to_bytes(&self) -> (b: Vec<u8>)
        ensures
            b@ == seq![self.entry_type, self.length, self.io_apic_id, self.reserved] + le32(
                self.io_apic_addr,
            ) + le32(self.gsi_base),
    {
        let mut b: Vec<u8> = Vec::new();
        b.push(self.entry_type);
        b.push(self.length);
        b.push(self.io_apic_id);
        b.push(self.reserved);
        push_u32(&mut b, self.io_apic_addr);
        push_u32(&mut b, self.gsi_base);
        assert(b@ =~= seq![self.entry_type, self.length, self.io_apic_id, self.reserved] + le32(
            self.io_apic_addr,
        ) + le32(self.gsi_base));
        b
    }
}

impl InterruptSourceOverrideEntry {
    fn to_bytes(&self) -> (b: Vec<u8>)
        ensures
            b@ == seq![self.entry_type, self.length, self.bus, self.source] + le32(self.gsi)
                + le16(self.flags),
    {
        let mut b: Vec<u8> = Vec::new();
        b.push(self.entry_type);
        b.push(self.length);
        b.push(self.bus);
        b.push(self.source);
        push_u32(&mut b, self.gsi);
        push_u16(&mut b, self.flags);
        assert(b@ =~= seq![self.entry_type, self.length, self.bus, self.source] + le32(self.gsi)
            + le16(self.flags));
        b
    }
}

impl LocalApicNmiEntry {
    fn to_bytes(&self) -> (b: Vec<u8>)
        ensures
            b@ == seq![self.entry_type, self.length, self.processor_uid] + le16(self.flags)
                + seq![self.lint],
    {
        let mut b: Vec<u8> = Vec::new();
        b.push(self.entry_type);
        b.push(self.length);
        b.push(self.processor_uid);
        push_u16(&mut b, self.flags);
        b.push(self.lint);
        assert(b@ =~= seq![self.entry_type, self.length, self.processor_uid] + le16(self.flags)
            + seq![self.lint]);
        b
    }
}

impl EcamEntry {
    fn to_bytes(&self) -> (b: Vec<u8>)
        ensures
            b@ == le64(self.base_addr) + le16(self.segment) + seq![self.start_bus, self.end_bus]
                + self.reserved@,
    {
        let mut b: Vec<u8> = Vec::new();
        push_u64(&mut b, self.base_addr);
        push_u16(&mut b, self.segment);
        b.push(self.start_bus);
        b.push(self.end_bus);
        push_slice(&mut b, &self.reserved);
        assert(b@ =~= le64(self.base_addr) + le16(self.segment) + seq![self.start_bus, self.end_bus]
            + self.reserved@);
        b
    }
}

/// The local APIC of processor `cpu`, enabled.
pub open spec fn madt_local_apic(cpu: u8) -> Seq<u8> {
    seq![0u8, 8u8, cpu, cpu] + le32(1)
}

/// The local APICs of the first `n` processors.
pub open spec fn madt_local_apics(n: nat) -> Seq<u8>
    decreases n,
{
    if n == 0 {
        Seq::<u8>::empty()
    } else {
        madt_local_apics((n - 1) as nat) + madt_local_apic((n - 1) as u8)
    }
}

/// The I/O APIC at 0xfec00000, from GSI 0.
pub open spec fn madt_io_apic() -> Seq<u8> {
    seq![1u8, 12u8, 0u8, 0u8] + le32(0xfec0_0000) + le32(0)
}

/// The override of ISA IRQ `irq`: IRQ 0 goes to GSI 2, every other to its
/// own number; high active, edge triggered.
pub open spec fn madt_iso(irq: u8) -> Seq<u8> {
    seq![2u8, 10u8, 0u8, irq] + le32(
        if irq == 0 {
            2u32
        } else {
            irq as u32
        },
    ) + le16(5)
}

/// The overrides of ISA IRQs `0..n`.
pub open spec fn madt_isos(n: nat) -> Seq<u8>
    decreases n,
{
    if n == 0 {
        Seq::<u8>::empty()
    } else {
        madt_isos((n - 1) as nat) + madt_iso((n - 1) as u8)
    }
}

/// LINT1 of every processor is the NMI.
pub open spec fn madt_nmi() -> Seq<u8> {
    seq![4u8, 6u8, 0xffu8] + le16(0) + seq![1u8]
}

/// Length of the MADT for `cpu_count` processors.
pub open spec fn madt_len(cpu_count: u8) -> int {
    62 + 18 * cpu_count
}

/// The MADT for `cpu_count` processors, checksum byte cleared.
#[verifier::opaque]
pub open spec fn madt_image(cpu_count: u8) -> Seq<u8> {
    qemu_header(APIC_SIGNATURE@, madt_len(cpu_count) as u32, 3) + le32(0xfee0_0000) + le32(1)
        + madt_local_apics(cpu_count as nat) + madt_io_apic() + madt_isos(cpu_count as nat)
        + madt_nmi()
}

/// The MADT: the local APIC address, one local APIC per processor, the
/// I/O APIC, one interrupt override per processor and the NMI entry.
#[verifier::rlimit(30)]
fn build_qemu_madt(cpu_count: u8) -> (madt: Sdt)
    ensures
        madt.wf(),
        madt.bytes().len() == madt_len(cpu_count),
        image(madt.bytes()) == madt_image(cpu_count),
{
    let mut madt = new_qemu_table(APIC_SIGNATURE, 44, 3);
    let ghost h0 = qemu_header(APIC_SIGNATURE@, 44, 3);
    let ghost s0 = madt.bytes();
    madt.write_u32(36, 0xfee0_0000);
    let ghost s1 = madt.bytes();
    madt.write_u32(40, 1);
    let ghost fixed = le32(0xfee0_0000) + le32(1);
    proof {
        assert(madt.bytes().len() == 44);
        lemma_body_write(s0, h0, zeros(8), 36, le32(0xfee0_0000));
        lemma_body_write(s1, h0, splice(zeros(8), 0, le32(0xfee0_0000)), 40, le32(1));
        assert(splice(splice(zeros(8), 0, le32(0xfee0_0000)), 4, le32(1)) =~= fixed);
        assert(madt_local_apics(0) =~= Seq::<u8>::empty());
        assert(fixed + madt_local_apics(0) =~= fixed);
    }

    let mut cpu: u8 = 0;
    while cpu < cpu_count
        invariant
            cpu <= cpu_count,
            madt.wf(),
            madt.bytes().len() == 44 + 8 * cpu,
            image(madt.bytes()) == qemu_header(APIC_SIGNATURE@, (44 + 8 * cpu) as u32, 3) + (fixed
                + madt_local_apics(cpu as nat)),
        decreases cpu_count - cpu,
    {
        let entry = LocalApicEntry {
            entry_type: 0,
            length: 8,
            processor_uid: cpu,
            apic_id: cpu,
            flags: 1,
        };
        let b = entry.to_bytes();
        let ghost before = madt.bytes();
        madt.append(b.as_slice());
        proof {
            lemma_qemu_append(before, APIC_SIGNATURE@, 3, fixed + madt_local_apics(cpu as nat), b@);
            assert(fixed + madt_local_apics((cpu + 1) as nat) =~= (fixed + madt_local_apics(
                cpu as nat,
            )) + b@);
        }
        cpu = cpu + 1;
    }

    let io_apic = IoApicEntry {
        entry_type: 1,
        length: 12,
        io_apic_id: 0,
        reserved: 0,
        io_apic_addr: 0xfec0_0000,
        gsi_base: 0,
    };
    let b = io_apic.to_bytes();
    let ghost before = madt.bytes();
    madt.append(b.as_slice());
    let ghost prefix = fixed + madt_local_apics(cpu_count as nat) + madt_io_apic();
    proof {
        lemma_qemu_append(
            before,
            APIC_SIGNATURE@,
            3,
            fixed + madt_local_apics(cpu_count as nat),
            b@,
        );
        assert(prefix + madt_isos(0) =~= (fixed + madt_local_apics(cpu_count as nat)) + b@);
    }

    let mut irq: u8 = 0;
    while irq < cpu_count
        invariant
            irq <= cpu_count,
            madt.wf(),
            madt.bytes().len() == 56 + 8 * cpu_count + 10 * irq,
            image(madt.bytes()) == qemu_header(
                APIC_SIGNATURE@,
                (56 + 8 * cpu_count + 10 * irq) as u32,
                3,
            ) + (prefix + madt_isos(irq as nat)),
        decreases cpu_count - irq,
    {
        let entry = InterruptSourceOverrideEntry {
            entry_type: 2,
            length: 10,
            bus: 0,
            source: irq,
            gsi: if irq == 0 {
                2
            } else {
                irq as u32
            },
            flags: 5,
        };
        let b = entry.to_bytes();
        let ghost before = madt.bytes();
        madt.append(b.as_slice());
        proof {
            lemma_qemu_append(before, APIC_SIGNATURE@, 3, prefix + madt_isos(irq as nat), b@);
            assert(prefix + madt_isos((irq + 1) as nat) =~= (prefix + madt_isos(irq as nat)) + b@);
        }
        irq = irq + 1;
    }

    let nmi = LocalApicNmiEntry { entry_type: 4, length: 6, processor_uid: 0xff, flags: 0, lint: 1 };
    let b = nmi.to_bytes();
    let ghost before = madt.bytes();
    madt.append(b.as_slice());
    proof {
        lemma_qemu_append(before, APIC_SIGNATURE@, 3, prefix + madt_isos(cpu_count as nat), b@);
        reveal(madt_image);
        assert(image(madt.bytes()) =~= madt_image(cpu_count));
    }
    madt
}

/// The MCFG, checksum byte cleared: one ECAM window at 0xe0000000 for
/// buses 0 to 255 of segment 0.
#[verifier::opaque]
pub open spec fn mcfg_image() -> Seq<u8> {
    qemu_header(MCFG_SIGNATURE@, 60, 1) + zeros(8) + le64(0xe000_0000) + le16(0) + seq![
        0u8,
        0xffu8,
    ] + seq![0u8, 0u8, 0u8, 0u8]
}

/// The MCFG.
fn build_qemu_mcfg() -> (mcfg: Sdt)
    ensures
        mcfg.wf(),
        mcfg.bytes().len() == 60,
        image(mcfg.bytes()) == mcfg_image(),
{
    let mut mcfg = new_qemu_table(MCFG_SIGNATURE, 44, 1);
    let entry = EcamEntry {
        base_addr: 0xe000_0000,
        segment: 0,
        start_bus: 0,
        end_bus: 0xff,
        reserved: [0u8; 4],
    };
    let b = entry.to_bytes();
    let ghost before = mcfg.bytes();
    mcfg.append(b.as_slice());
    proof {
        lemma_qemu_append(before, MCFG_SIGNATURE@, 1, zeros(8), b@);
        assert(entry.reserved@ =~= seq![0u8, 0u8, 0u8, 0u8]);
        reveal(mcfg_image);
        assert(image(mcfg.bytes()) =~= mcfg_image());
    }
    mcfg
}

/// The WAET, checksum byte cleared: the RTC is good.
#[verifier::opaque]
pub open spec fn waet_image() -> Seq<u8> {
    qemu_header(WAET_SIGNATURE@, 40, 1) + le32(2)
}

/// The WAET.
fn build_qemu_waet() -> (waet: Sdt)
    ensures
        waet.wf(),
        waet.bytes().len() == 40,
        image(waet.bytes()) == waet_image(),
{
    let mut waet = new_qemu_table(WAET_SIGNATURE, 40, 1);
    let ghost before = waet.bytes();
    waet.write_u32(36, 2);
    proof {
        reveal(waet_image);
        lemma_body_write(before, qemu_header(WAET_SIGNATURE@, 40, 1), zeros(4), 36, le32(2));
        assert(splice(zeros(4), 0, le32(2)) =~= le32(2));
    }
    waet
}

/// The RSDT, checksum byte cleared: the offsets of the FADT, MADT, MCFG
/// and WAET.
#[verifier::opaque]
pub open spec fn rsdt_image(fadt: u32, madt: u32, mcfg: u32, waet: u32) -> Seq<u8> {
    qemu_header(RSDT_SIGNATURE@, 52, 1) + le32(fadt) + le32(madt) + le32(mcfg) + le32(waet)
}

/// The RSDT.
fn build_qemu_rsdt(fadt: u32, madt: u32, mcfg: u32, waet: u32) -> (rsdt: Sdt)
    ensures
        rsdt.wf(),
        rsdt.bytes().len() == 52,
        image(rsdt.bytes()) == rsdt_image(fadt, madt, mcfg, waet),
{
    let mut rsdt = new_qemu_table(RSDT_SIGNATURE, 52, 1);
    let ghost h = qemu_header(RSDT_SIGNATURE@, 52, 1);
    let ghost s0 = rsdt.bytes();
    rsdt.write_u32(36, fadt);
    let ghost s1 = rsdt.bytes();
    rsdt.write_u32(40, madt);
    let ghost s2 = rsdt.bytes();
    rsdt.write_u32(44, mcfg);
    let ghost s3 = rsdt.bytes();
    rsdt.write_u32(48, waet);
    proof {
        reveal(rsdt_image);
        let r0 = zeros(16);
        let r1 = splice(r0, 0, le32(fadt));
        let r2 = splice(r1, 4, le32(madt));
        let r3 = splice(r2, 8, le32(mcfg));
        lemma_body_write(s0, h, r0, 36, le32(fadt));
        lemma_body_write(s1, h, r1, 40, le32(madt));
        lemma_body_write(s2, h, r2, 44, le32(mcfg));
        lemma_body_write(s3, h, r3, 48, le32(waet));
        assert(splice(r3, 12, le32(waet)) =~= le32(fadt) + le32(madt) + le32(mcfg) + le32(waet));
    }
    rsdt
}

/// A register in system I/O space.
pub open spec fn io_gas(width: u8, address: u64) -> Seq<u8> {
    gas_bytes(
        GAS {
            address_space_id: 1,
            register_bit_width: width,
            register_bit_offset: 0,
            access_size: 0,
            address,
        },
    )
}

/// No register.
pub open spec fn no_gas() -> Seq<u8> {
    gas_bytes(
        GAS {
            address_space_id: 0,
            register_bit_width: 0,
            register_bit_offset: 0,
            access_size: 0,
            address: 0,
        },
    )
}

/// The FADT's fixed-hardware register blocks (offsets 36 to 88).
pub open spec fn fadt_pm_blocks() -> Seq<u8> {
    le32(0)  // 36 FIRMWARE_CTRL
     + le32(DSDT_OFFSET as u32)  // 40 DSDT
     + seq![1u8, 0u8]  // 44 reserved, preferred PM profile
     + le16(9)  // 46 SCI_INT
     + le32(0)  // 48 SMI_CMD
     + seq![0u8, 0u8, 0u8, 0u8]  // 52 ACPI_ENABLE, ACPI_DISABLE, S4BIOS_REQ, PSTATE_CNT
     + le32(0x600)  // 56 PM1a_EVT_BLK
     + le32(0)  // 60 PM1b_EVT_BLK
     + le32(0x604)  // 64 PM1a_CNT_BLK
     + le32(0)  // 68 PM1b_CNT_BLK
     + le32(0)  // 72 PM2_CNT_BLK
     + le32(0x608)  // 76 PM_TMR_BLK
     + le32(0x620)  // 80 GPE0_BLK
     + le32(0)  // 84 GPE1_BLK
}

/// The FADT's block lengths, latencies and flags (offsets 88 to 116).
pub open spec fn fadt_misc() -> Seq<u8> {
    seq![4u8, 2u8, 0u8, 4u8, 16u8, 0u8, 0u8, 0u8]  // 88 block lengths, GPE1_BASE, CST_CNT
     + le16(0x0fff)  // 96 P_LVL2_LAT
     + le16(0x0fff)  // 98 P_LVL3_LAT
     + le16(0)  // 100 FLUSH_SIZE
     + le16(0)  // 102 FLUSH_STRIDE
     + seq![0u8, 0u8, 0u8, 0u8, 50u8]  // 104 DUTY_OFFSET, DUTY_WIDTH, DAY_ALRM, MON_ALRM, CENTURY
     + le16(0x0002)  // 109 IAPC_BOOT_ARCH
     + seq![0u8]  // 111 reserved
     + le32(0x0004_84a5)  // 112 flags
}

/// The FADT's reset register and extended pointers (offsets 116 to 148).
pub open spec fn fadt_reset() -> Seq<u8> {
    io_gas(8, 0x0cf9)  // 116 RESET_REG
     + seq![0x0fu8]  // 128 RESET_VALUE
     + le16(0)  // 129 ARM_BOOT_ARCH
     + seq![0u8]  // 131 minor version
     + le64(0)  // 132 X_FIRMWARE_CTRL
     + le64(DSDT_OFFSET as u64)  // 140 X_DSDT
}

/// The FADT's extended register blocks (offsets 148 to 244).
pub open spec fn fadt_x_blocks() -> Seq<u8> {
    io_gas(32, 0x600)  // 148 X_PM1a_EVT_BLK
     + no_gas()  // 160 X_PM1b_EVT_BLK
     + io_gas(16, 0x604)  // 172 X_PM1a_CNT_BLK
     + no_gas()  // 184 X_PM1b_CNT_BLK
     + no_gas()  // 196 X_PM2_CNT_BLK
     + io_gas(32, 0x608)  // 208 X_PM_TMR_BLK
     + io_gas(128, 0x620)  // 220 X_GPE0_BLK
     + no_gas()  // 232 X_GPE1_BLK
}

/// The FADT after its header.
pub open spec fn fadt_body() -> Seq<u8> {
    fadt_pm_blocks() + fadt_misc() + fadt_reset() + fadt_x_blocks()
}

/// The FADT, checksum byte cleared.
#[verifier::opaque]
pub open spec fn fadt_image() -> Seq<u8> {
    qemu_header(FACP_SIGNATURE@, FADT_LEN, 3) + fadt_body()
}

/// Appends the bytes of an I/O register.
fn push_io_gas(out: &mut Vec<u8>, width: u8, address: u64)
    ensures
        final(out)@ == old(out)@ + io_gas(width, address),
{
    let g = GAS::new(AddressSpace::SystemIo, width, 0, AccessSize::Undefined, address);
    push_slice(out, g.as_bytes().as_slice());
}

/// Appends the bytes of an empty register.
fn push_no_gas(out: &mut Vec<u8>)
    ensures
        final(out)@ == old(out)@ + no_gas(),
{
    let g = GAS::default();
    push_slice(out, g.as_bytes().as_slice());
}

fn push_fadt_pm_blocks(body: &mut Vec<u8>)
    ensures
        final(body)@ == old(body)@ + fadt_pm_blocks(),
{
    push_u32(body, 0);
    push_u32(body, DSDT_OFFSET as u32);
    body.push(1);
    body.push(0);
    push_u16(body, 9);
    push_u32(body, 0);
    body.push(0);
    body.push(0);
    body.push(0);
    body.push(0);
    push_u32(body, 0x600);
    push_u32(body, 0);
    push_u32(body, 0x604);
    push_u32(body, 0);
    push_u32(body, 0);
    push_u32(body, 0x608);
    push_u32(body, 0x620);
    push_u32(body, 0);
    assert(body@ =~= old(body)@ + fadt_pm_blocks());
}

fn push_fadt_misc(body: &mut Vec<u8>)
    ensures
        final(body)@ == old(body)@ + fadt_misc(),
{
    body.push(4);
    body.push(2);
    body.push(0);
    body.push(4);
    body.push(16);
    body.push(0);
    body.push(0);
    body.push(0);
    push_u16(body, 0x0fff);
    push_u16(body, 0x0fff);
    push_u16(body, 0);
    push_u16(body, 0);
    body.push(0);
    body.push(0);
    body.push(0);
    body.push(0);
    body.push(50);
    push_u16(body, 0x0002);
    body.push(0);
    push_u32(body, 0x0004_84a5);
    assert(body@ =~= old(body)@ + fadt_misc());
}

fn push_fadt_reset(body: &mut Vec<u8>)
    ensures
        final(body)@ == old(body)@ + fadt_reset(),
{
    push_io_gas(body, 8, 0x0cf9);
    body.push(0x0f);
    push_u16(body, 0);
    body.push(0);
    push_u64(body, 0);
    push_u64(body, DSDT_OFFSET as u64);
    assert(body@ =~= old(body)@ + fadt_reset());
}

fn push_fadt_x_blocks(body: &mut Vec<u8>)
    ensures
        final(body)@ == old(body)@ + fadt_x_blocks(),
{
    push_io_gas(body, 32, 0x600);
    push_no_gas(body);
    push_io_gas(body, 16, 0x604);
    push_no_gas(body);
    push_no_gas(body);
    push_io_gas(body, 32, 0x608);
    push_io_gas(body, 128, 0x620);
    push_no_gas(body);
    assert(body@ =~= old(body)@ + fadt_x_blocks());
}

/// The FADT: fixed hardware of the ICH9 power management block, the reset
/// register, and pointers to the DSDT.
fn build_qemu_fadt() -> (fadt: Sdt)
    ensures
        fadt.wf(),
        fadt.bytes().len() == FADT_LEN,
        image(fadt.bytes()) == fadt_image(),
{
    let mut fadt = new_qemu_table(FACP_SIGNATURE, FADT_LEN, 3);
    let mut body: Vec<u8> = Vec::new();
    push_fadt_pm_blocks(&mut body);
    push_fadt_misc(&mut body);
    push_fadt_reset(&mut body);
    push_fadt_x_blocks(&mut body);
    assert(body@ =~= fadt_body());
    let ghost before = fadt.bytes();
    fadt.write_bytes(HEADER_LEN, body.as_slice());
    proof {
        reveal(fadt_image);
        let h = qemu_header(FACP_SIGNATURE@, FADT_LEN, 3);
        lemma_image_splice(before, HEADER_LEN as int, body@);
        lemma_splice_tail(h, zeros(208), HEADER_LEN as int, body@);
        assert(splice(zeros(208), 0, body@) =~= body@);
    }
    fadt
}

// ---------------------------------------------------------------- the blob

/// The FACS of the blob: version 0, every other field zero.
#[verifier::opaque]
pub open spec fn qemu_facs() -> Seq<u8> {
    FACS_SIGNATURE@ + le32(64) + le32(0) + le32(0) + le32(0) + le32(0) + le64(0) + seq![0u8]
        + zeros(3) + le32(0) + zeros(24)
}

/// Offset of the MADT in the blob.
pub open spec fn madt_offset() -> int {
    FADT_OFFSET + FADT_LEN
}

/// Offset of the MCFG in the blob.
pub open spec fn mcfg_offset(cpu_count: u8) -> int {
    madt_offset() + madt_len(cpu_count)
}

/// Offset of the WAET in the blob.
pub open spec fn waet_offset(cpu_count: u8) -> int {
    mcfg_offset(cpu_count) + 60
}

/// Offset of the RSDT in the blob.
pub open spec fn rsdt_offset(cpu_count: u8) -> int {
    waet_offset(cpu_count) + 40
}

/// The tables of the blob, one after the other, checksum bytes of the
/// FADT, MADT, MCFG, WAET and RSDT cleared.
#[verifier::opaque]
pub open spec fn q35_tables(cpu_count: u8, prefix: Seq<u8>, mid: Seq<u8>) -> Seq<u8> {
    qemu_facs() + spec_dsdt(prefix, mid) + fadt_image() + madt_image(cpu_count) + mcfg_image()
        + waet_image() + rsdt_image(
        FADT_OFFSET as u32,
        madt_offset() as u32,
        mcfg_offset(cpu_count) as u32,
        waet_offset(cpu_count) as u32,
    )
}

/// The blob: the tables, then zeros up to its fixed size.
#[verifier::opaque]
pub open spec fn q35_blob(cpu_count: u8, prefix: Seq<u8>, mid: Seq<u8>) -> Seq<u8> {
    let t = q35_tables(cpu_count, prefix, mid);
    t + zeros((QEMU_Q35_ACPI_BLOB_LEN - t.len()) as nat)
}

/// Clearing the checksum byte of a table that was just appended.
proof fn lemma_clear_checksum(t: Seq<u8>, x: Seq<u8>)
    requires
        x.len() > 9,
    ensures
        (t + x).update(t.len() + 9int, 0u8) == t + image(x),
{
    assert((t + x).update(t.len() + 9int, 0u8) =~= t + image(x));
}

/// Appends a table to the blob with its checksum byte cleared.
fn append_table(table: &mut Vec<u8>, sdt: &Sdt)
    requires
        sdt.wf(),
    ensures
        final(table)@ == old(table)@ + image(sdt.bytes()),
{
    let offset = table.len();
    push_slice(table, sdt.as_slice());
    let end = table.len();
    assert(end == offset + sdt.bytes().len());
    table.set(offset + 9, 0);
    proof {
        lemma_clear_checksum(old(table)@, sdt.bytes());
    }
}

/// The ACPI blob of a `q35` machine with the processors that `profile`
/// asks for, when `profile` is valid; else the first rule that it breaks.
pub fn qemu_q35_acpi_table_from_profile(
    profile: QemuQ35AcpiProfile,
    template: &QemuQ35DsdtTemplate,
) -> (r: Result<Vec<u8>, QemuAcpiError>)
    ensures
        match profile_error(profile) {
            Some(e) => r == Err::<Vec<u8>, QemuAcpiError>(e),
            None => r matches Ok(blob) && blob@ == q35_blob(
                profile.cpu_count,
                template.prefix_bytes(),
                template.mid_bytes(),
            ),
        },
{
    let profile = profile.validate()?;
    let dsdt = build_qemu_dsdt(template);
    let fadt = build_qemu_fadt();
    let madt = build_qemu_madt(profile.cpu_count);
    let mcfg = build_qemu_mcfg();
    let waet = build_qemu_waet();
    let mut facs = FACS::new();
    facs.version = 0;

    let madt_offset: usize = FADT_OFFSET + fadt.len();
    let mcfg_offset: usize = madt_offset + madt.len();
    let waet_offset: usize = mcfg_offset + mcfg.len();
    let rsdt_offset: usize = waet_offset + waet.len();
    let rsdt = build_qemu_rsdt(
        FADT_OFFSET as u32,
        madt_offset as u32,
        mcfg_offset as u32,
        waet_offset as u32,
    );

    let mut table: Vec<u8> = Vec::with_capacity(QEMU_Q35_ACPI_BLOB_LEN);
    facs.to_aml_bytes(&mut table);
    assert(table@ =~= qemu_facs()) by {
        reveal(qemu_facs);
    }
    assert(table.len() == DSDT_OFFSET);

    push_slice(&mut table, dsdt.as_slice());
    assert(table.len() == FADT_OFFSET);

    // Each table goes in with its checksum byte cleared.
    append_table(&mut table, &fadt);
    assert(table.len() == madt_offset);
    append_table(&mut table, &madt);
    assert(table.len() == mcfg_offset);
    append_table(&mut table, &mcfg);
    assert(table.len() == waet_offset);
    append_table(&mut table, &waet);
    assert(table.len() == rsdt_offset);
    append_table(&mut table, &rsdt);

    let ghost tables = table@;
    assert(tables =~= q35_tables(profile.cpu_count, template.prefix_bytes(), template.mid_bytes()))
        by {
        reveal(q35_tables);
    }
    proof {
        reveal(q35_blob);
    }
    let padding: usize = QEMU_Q35_ACPI_BLOB_LEN - table.len();
    push_zeros(&mut table, padding);
    Ok(table)
}

// ---------------------------------------------------------------- layout

pub proof fn lemma_madt_lengths(n: nat)
    ensures
        madt_local_apics(n).len() == 8 * n,
        madt_isos(n).len() == 10 * n,
    decreases n,
{
    if n > 0 {
        lemma_madt_lengths((n - 1) as nat);
    }
}

pub proof fn lemma_dsdt_len(prefix: Seq<u8>, mid: Seq<u8>)
    requires
        prefix.len() == DSDT_PROCESSOR_BLOCK_OFFSET,
        mid.len() == DSDT_MID_LEN,
    ensures
        spec_dsdt(prefix, mid).len() == DSDT_LEN,
{
    reveal(spec_dsdt);
    lemma_processor_block_len(QEMU_Q35_MAX_CPU_COUNT as nat);
    lemma_dsdt_generated_tail_len();
}

pub proof fn lemma_fadt_len()
    ensures
        fadt_body().len() == FADT_LEN - HEADER_LEN,
        fadt_image().len() == FADT_LEN,
{
    reveal(fadt_image);
    assert(fadt_pm_blocks().len() == 52);
    assert(fadt_misc().len() == 28);
    assert(fadt_reset().len() == 32);
    assert(fadt_x_blocks().len() == 96);
}

pub proof fn lemma_madt_len(cpu_count: u8)
    ensures
        madt_image(cpu_count).len() == madt_len(cpu_count),
{
    reveal(madt_image);
    lemma_madt_lengths(cpu_count as nat);
}

/// Each part of a concatenation stands at the sum of the lengths before it.
proof fn lemma_parts(
    a: Seq<u8>,
    b: Seq<u8>,
    c: Seq<u8>,
    d: Seq<u8>,
    e: Seq<u8>,
    f: Seq<u8>,
    g: Seq<u8>,
    h: Seq<u8>,
)
    ensures
        ({
            let s = a + b + c + d + e + f + g + h;
            let ob = a.len() as int;
            let oc = ob + b.len();
            let od = oc + c.len();
            let oe = od + d.len();
            let of = oe + e.len();
            let og = of + f.len();
            &&& s.len() == og + g.len() + h.len()
            &&& s.subrange(0, ob) == a
            &&& s.subrange(ob, oc) == b
            &&& s.subrange(oc, od) == c
            &&& s.subrange(od, oe) == d
            &&& s.subrange(oe, of) == e
            &&& s.subrange(of, og) == f
            &&& s.subrange(og, og + g.len()) == g
        }),
{
    let s = a + b + c + d + e + f + g + h;
    let ob = a.len() as int;
    let oc = ob + b.len();
    let od = oc + c.len();
    let oe = od + d.len();
    let of = oe + e.len();
    let og = of + f.len();
    assert(s.subrange(0, ob) =~= a);
    assert(s.subrange(ob, oc) =~= b);
    assert(s.subrange(oc, od) =~= c);
    assert(s.subrange(od, oe) =~= d);
    assert(s.subrange(oe, of) =~= e);
    assert(s.subrange(of, og) =~= f);
    assert(s.subrange(og, og + g.len()) =~= g);
}

/// A piece of a piece of a sequence is a piece of the sequence.
pub proof fn lemma_sub_sub(s: Seq<u8>, o: int, n: int, i: int, j: int)
    requires
        0 <= o,
        o + n <= s.len(),
        0 <= i <= j <= n,
    ensures
        s.subrange(o, o + n).subrange(i, j) == s.subrange(o + i, o + j),
        s.subrange(o, o + n)[i] == s[o + i] || i == n,
{
    assert(s.subrange(o, o + n).subrange(i, j) =~= s.subrange(o + i, o + j));
}

/// Where a table of QEMU's stands in the blob, its signature and length
/// field and a cleared checksum byte can be read.
proof fn lemma_header_fields(signature: Seq<u8>, length: u32, revision: u8, body: Seq<u8>)
    requires
        signature.len() == 4,
    ensures
        (qemu_header(signature, length, revision) + body).subrange(0, 4) == signature,
        (qemu_header(signature, length, revision) + body).subrange(4, 8) == le32(length),
        (qemu_header(signature, length, revision) + body)[9] == 0,
        (qemu_header(signature, length, revision) + body).subrange(36, 36 + body.len() as int)
            == body,
{
    let t = qemu_header(signature, length, revision) + body;
    assert(t.subrange(0, 4) =~= signature);
    assert(t.subrange(4, 8) =~= le32(length));
    assert(t.subrange(36, 36 + body.len() as int) =~= body);
}

/// The tables stand in the blob where the offsets say.
pub proof fn lemma_q35_parts(cpu_count: u8, prefix: Seq<u8>, mid: Seq<u8>)
    requires
        prefix.len() == DSDT_PROCESSOR_BLOCK_OFFSET,
        mid.len() == DSDT_MID_LEN,
    ensures
        ({
            let b = q35_blob(cpu_count, prefix, mid);
            &&& b.len() == QEMU_Q35_ACPI_BLOB_LEN
            &&& b.subrange(0, DSDT_OFFSET as int) == qemu_facs()
            &&& b.subrange(DSDT_OFFSET as int, FADT_OFFSET as int) == spec_dsdt(prefix, mid)
            &&& b.subrange(FADT_OFFSET as int, madt_offset()) == fadt_image()
            &&& b.subrange(madt_offset(), mcfg_offset(cpu_count)) == madt_image(cpu_count)
            &&& b.subrange(mcfg_offset(cpu_count), waet_offset(cpu_count)) == mcfg_image()
            &&& b.subrange(waet_offset(cpu_count), rsdt_offset(cpu_count)) == waet_image()
            &&& b.subrange(rsdt_offset(cpu_count), rsdt_offset(cpu_count) + 52) == rsdt_image(
                FADT_OFFSET as u32,
                madt_offset() as u32,
                mcfg_offset(cpu_count) as u32,
                waet_offset(cpu_count) as u32,
            )
        }),
{
    let facs = qemu_facs();
    let dsdt = spec_dsdt(prefix, mid);
    let fadt = fadt_image();
    let madt = madt_image(cpu_count);
    let mcfg = mcfg_image();
    let waet = waet_image();
    let rsdt = rsdt_image(
        FADT_OFFSET as u32,
        madt_offset() as u32,
        mcfg_offset(cpu_count) as u32,
        waet_offset(cpu_count) as u32,
    );
    assert(facs.len() == 64) by {
        reveal(qemu_facs);
    }
    lemma_dsdt_len(prefix, mid);
    lemma_fadt_len();
    lemma_madt_len(cpu_count);
    assert(mcfg.len() == 60) by {
        reveal(mcfg_image);
    }
    assert(waet.len() == 40) by {
        reveal(waet_image);
    }
    assert(rsdt.len() == 52) by {
        reveal(rsdt_image);
    }
    let t = facs + dsdt + fadt + madt + mcfg + waet + rsdt;
    let pad = zeros((QEMU_Q35_ACPI_BLOB_LEN - t.len()) as nat);
    lemma_parts(facs, dsdt, fadt, madt, mcfg, waet, rsdt, pad);
    reveal(q35_tables);
    reveal(q35_blob);
}

/// The signature, length field and cleared checksum byte of the table
/// that stands at `o` in `b` as `table`, which is a header of QEMU's and a
/// body.
proof fn lemma_table_at(
    b: Seq<u8>,
    o: int,
    table: Seq<u8>,
    signature: Seq<u8>,
    length: u32,
    revision: u8,
    body: Seq<u8>,
)
    requires
        signature.len() == 4,
        0 <= o,
        o + table.len() <= b.len(),
        b.subrange(o, o + table.len()) == table,
        table == qemu_header(signature, length, revision) + body,
    ensures
        b.subrange(o, o + 4) == signature,
        b.subrange(o + 4, o + 8) == le32(length),
        b[o + 9] == 0,
        b.subrange(o + 36, o + 36 + body.len()) == body,
{
    lemma_header_fields(signature, length, revision, body);
    let n = table.len() as int;
    lemma_sub_sub(b, o, n, 0, 4);
    lemma_sub_sub(b, o, n, 4, 8);
    lemma_sub_sub(b, o, n, 36, 36 + body.len() as int);
    assert(b.subrange(o, o + n)[9] == b[o + 9]);
}

proof fn lemma_layout_fadt(cpu_count: u8, prefix: Seq<u8>, mid: Seq<u8>)
    requires
        prefix.len() == DSDT_PROCESSOR_BLOCK_OFFSET,
        mid.len() == DSDT_MID_LEN,
    ensures
        ({
            let b = q35_blob(cpu_count, prefix, mid);
            let fadt = FADT_OFFSET as int;
            &&& b.subrange(fadt, fadt + 4) == FACP_SIGNATURE@
            &&& b.subrange(fadt + 4, fadt + 8) == le32(FADT_LEN)
            &&& b[fadt + 9] == 0
            &&& b.subrange(fadt + 40, fadt + 44) == le32(DSDT_OFFSET as u32)
            &&& b.subrange(fadt + 140, fadt + 148) == le64(DSDT_OFFSET as u64)
        }),
{
    let b = q35_blob(cpu_count, prefix, mid);
    lemma_q35_parts(cpu_count, prefix, mid);
    lemma_fadt_len();
    let fadt = FADT_OFFSET as int;
    assert(fadt_image() == qemu_header(FACP_SIGNATURE@, FADT_LEN, 3) + fadt_body()) by {
        reveal(fadt_image);
    }
    lemma_table_at(b, fadt, fadt_image(), FACP_SIGNATURE@, FADT_LEN, 3, fadt_body());
    assert(fadt_body().subrange(4, 8) =~= le32(DSDT_OFFSET as u32));
    assert(fadt_body().subrange(104, 112) =~= le64(DSDT_OFFSET as u64));
    lemma_sub_sub(b, fadt + 36, fadt_body().len() as int, 4, 8);
    lemma_sub_sub(b, fadt + 36, fadt_body().len() as int, 104, 112);
}

proof fn lemma_layout_madt(cpu_count: u8, prefix: Seq<u8>, mid: Seq<u8>)
    requires
        prefix.len() == DSDT_PROCESSOR_BLOCK_OFFSET,
        mid.len() == DSDT_MID_LEN,
    ensures
        ({
            let b = q35_blob(cpu_count, prefix, mid);
            let madt = madt_offset();
            &&& b.subrange(madt, madt + 4) == APIC_SIGNATURE@
            &&& b.subrange(madt + 4, madt + 8) == le32(madt_len(cpu_count) as u32)
            &&& b[madt + 9] == 0
        }),
{
    let b = q35_blob(cpu_count, prefix, mid);
    lemma_q35_parts(cpu_count, prefix, mid);
    lemma_madt_len(cpu_count);
    let madt_body = le32(0xfee0_0000) + le32(1) + madt_local_apics(cpu_count as nat)
        + madt_io_apic() + madt_isos(cpu_count as nat) + madt_nmi();
    assert(madt_image(cpu_count) =~= qemu_header(APIC_SIGNATURE@, madt_len(cpu_count) as u32, 3)
        + madt_body) by {
        reveal(madt_image);
    }
    lemma_table_at(
        b,
        madt_offset(),
        madt_image(cpu_count),
        APIC_SIGNATURE@,
        madt_len(cpu_count) as u32,
        3,
        madt_body,
    );
}

proof fn lemma_layout_mcfg_waet(cpu_count: u8, prefix: Seq<u8>, mid: Seq<u8>)
    requires
        prefix.len() == DSDT_PROCESSOR_BLOCK_OFFSET,
        mid.len() == DSDT_MID_LEN,
    ensures
        ({
            let b = q35_blob(cpu_count, prefix, mid);
            let mcfg = mcfg_offset(cpu_count);
            let waet = waet_offset(cpu_count);
            &&& b.subrange(mcfg, mcfg + 4) == MCFG_SIGNATURE@
            &&& b.subrange(mcfg + 4, mcfg + 8) == le32(60)
            &&& b[mcfg + 9] == 0
            &&& b.subrange(waet, waet + 4) == WAET_SIGNATURE@
            &&& b.subrange(waet + 4, waet + 8) == le32(40)
            &&& b[waet + 9] == 0
        }),
{
    let b = q35_blob(cpu_count, prefix, mid);
    lemma_q35_parts(cpu_count, prefix, mid);
    let mcfg_body = zeros(8) + le64(0xe000_0000) + le16(0) + seq![0u8, 0xffu8] + seq![
        0u8,
        0u8,
        0u8,
        0u8,
    ];
    assert(mcfg_image() =~= qemu_header(MCFG_SIGNATURE@, 60, 1) + mcfg_body) by {
        reveal(mcfg_image);
    }
    lemma_table_at(b, mcfg_offset(cpu_count), mcfg_image(), MCFG_SIGNATURE@, 60, 1, mcfg_body);
    assert(waet_image() == qemu_header(WAET_SIGNATURE@, 40, 1) + le32(2)) by {
        reveal(waet_image);
    }
    lemma_table_at(b, waet_offset(cpu_count), waet_image(), WAET_SIGNATURE@, 40, 1, le32(2));
}

proof fn lemma_layout_rsdt(cpu_count: u8, prefix: Seq<u8>, mid: Seq<u8>)
    requires
        prefix.len() == DSDT_PROCESSOR_BLOCK_OFFSET,
        mid.len() == DSDT_MID_LEN,
    ensures
        ({
            let b = q35_blob(cpu_count, prefix, mid);
            let rsdt = rsdt_offset(cpu_count);
            &&& b.subrange(rsdt, rsdt + 4) == RSDT_SIGNATURE@
            &&& b.subrange(rsdt + 4, rsdt + 8) == le32(52)
            &&& b[rsdt + 9] == 0
            &&& b.subrange(rsdt + 36, rsdt + 40) == le32(FADT_OFFSET as u32)
            &&& b.subrange(rsdt + 40, rsdt + 44) == le32(madt_offset() as u32)
            &&& b.subrange(rsdt + 44, rsdt + 48) == le32(mcfg_offset(cpu_count) as u32)
            &&& b.subrange(rsdt + 48, rsdt + 52) == le32(waet_offset(cpu_count) as u32)
        }),
{
    let b = q35_blob(cpu_count, prefix, mid);
    lemma_q35_parts(cpu_count, prefix, mid);
    let rsdt = rsdt_offset(cpu_count);
    let entries = le32(FADT_OFFSET as u32) + le32(madt_offset() as u32) + le32(
        mcfg_offset(cpu_count) as u32,
    ) + le32(waet_offset(cpu_count) as u32);
    let rsdt_table = rsdt_image(
        FADT_OFFSET as u32,
        madt_offset() as u32,
        mcfg_offset(cpu_count) as u32,
        waet_offset(cpu_count) as u32,
    );
    assert(rsdt_table =~= qemu_header(RSDT_SIGNATURE@, 52, 1) + entries) by {
        reveal(rsdt_image);
    }
    lemma_table_at(b, rsdt, rsdt_table, RSDT_SIGNATURE@, 52, 1, entries);
    assert(entries.subrange(0, 4) =~= le32(FADT_OFFSET as u32));
    assert(entries.subrange(4, 8) =~= le32(madt_offset() as u32));
    assert(entries.subrange(8, 12) =~= le32(mcfg_offset(cpu_count) as u32));
    assert(entries.subrange(12, 16) =~= le32(waet_offset(cpu_count) as u32));
    lemma_sub_sub(b, rsdt + 36, 16, 0, 4);
    lemma_sub_sub(b, rsdt + 36, 16, 4, 8);
    lemma_sub_sub(b, rsdt + 36, 16, 8, 12);
    lemma_sub_sub(b, rsdt + 36, 16, 12, 16);
}

/// The layout of the blob: it has its fixed size; the FACS opens it and
/// the DSDT follows at `DSDT_OFFSET`; each of the FADT, MADT, MCFG, WAET
/// and RSDT stands at its offset with its signature, a length field that
/// gives its size and a cleared checksum byte; the FADT points at the
/// DSDT, and the RSDT points at the FADT, MADT, MCFG and WAET.
pub proof fn lemma_q35_layout(cpu_count: u8, prefix: Seq<u8>, mid: Seq<u8>)
    requires
        prefix.len() == DSDT_PROCESSOR_BLOCK_OFFSET,
        mid.len() == DSDT_MID_LEN,
    ensures
        ({
            let b = q35_blob(cpu_count, prefix, mid);
            let fadt = FADT_OFFSET as int;
            let madt = madt_offset();
            let mcfg = mcfg_offset(cpu_count);
            let waet = waet_offset(cpu_count);
            let rsdt = rsdt_offset(cpu_count);
            &&& b.len() == QEMU_Q35_ACPI_BLOB_LEN
            &&& b.subrange(0, 4) == FACS_SIGNATURE@
            &&& b.subrange(DSDT_OFFSET as int, fadt) == spec_dsdt(prefix, mid)
            &&& b.subrange(fadt, fadt + 4) == FACP_SIGNATURE@
            &&& b.subrange(fadt + 4, fadt + 8) == le32(FADT_LEN)
            &&& b[fadt + 9] == 0
            &&& b.subrange(fadt + 40, fadt + 44) == le32(DSDT_OFFSET as u32)
            &&& b.subrange(fadt + 140, fadt + 148) == le64(DSDT_OFFSET as u64)
            &&& b.subrange(madt, madt + 4) == APIC_SIGNATURE@
            &&& b.subrange(madt + 4, madt + 8) == le32(madt_len(cpu_count) as u32)
            &&& b[madt + 9] == 0
            &&& b.subrange(mcfg, mcfg + 4) == MCFG_SIGNATURE@
            &&& b.subrange(mcfg + 4, mcfg + 8) == le32(60)
            &&& b[mcfg + 9] == 0
            &&& b.subrange(waet, waet + 4) == WAET_SIGNATURE@
            &&& b.subrange(waet + 4, waet + 8) == le32(40)
            &&& b[waet + 9] == 0
            &&& b.subrange(rsdt, rsdt + 4) == RSDT_SIGNATURE@
            &&& b.subrange(rsdt + 4, rsdt + 8) == le32(52)
            &&& b[rsdt + 9] == 0
            &&& b.subrange(rsdt + 36, rsdt + 40) == le32(fadt as u32)
            &&& b.subrange(rsdt + 40, rsdt + 44) == le32(madt as u32)
            &&& b.subrange(rsdt + 44, rsdt + 48) == le32(mcfg as u32)
            &&& b.subrange(rsdt + 48, rsdt + 52) == le32(waet as u32)
        }),
{
    let b = q35_blob(cpu_count, prefix, mid);
    lemma_q35_parts(cpu_count, prefix, mid);
    assert(b.subrange(0, 4) == FACS_SIGNATURE@) by {
        reveal(qemu_facs);
        lemma_sub_sub(b, 0, DSDT_OFFSET as int, 0, 4);
        assert(qemu_facs().subrange(0, 4) =~= FACS_SIGNATURE@);
    }
    lemma_layout_fadt(cpu_count, prefix, mid);
    lemma_layout_madt(cpu_count, prefix, mid);
    lemma_layout_mcfg_waet(cpu_count, prefix, mid);
    lemma_layout_rsdt(cpu_count, prefix, mid);
}

/// Three adjacent pieces of a sequence make up its front.
proof fn lemma_join3(s: Seq<u8>, a: Seq<u8>, b: Seq<u8>, c: Seq<u8>, o1: int, o2: int, o3: int)
    requires
        0 <= o1 <= o2 <= o3 <= s.len(),
        s.subrange(0, o1) == a,
        s.subrange(o1, o2) == b,
        s.subrange(o2, o3) == c,
    ensures
        s.subrange(0, o3) == a + b + c,
{
    assert(s.subrange(0, o3) =~= s.subrange(0, o1) + s.subrange(o1, o2) + s.subrange(o2, o3));
}

/// Blobs for any two processor counts agree up to the MADT: the FACS, the
/// DSDT and the FADT. The MADT for the processor count follows at
/// `madt_offset()`.
pub proof fn lemma_q35_shared_front(c1: u8, c2: u8, prefix: Seq<u8>, mid: Seq<u8>)
    requires
        prefix.len() == DSDT_PROCESSOR_BLOCK_OFFSET,
        mid.len() == DSDT_MID_LEN,
    ensures
        q35_blob(c1, prefix, mid).subrange(0, madt_offset()) == qemu_facs() + spec_dsdt(
            prefix,
            mid,
        ) + fadt_image(),
        q35_blob(c1, prefix, mid).subrange(0, madt_offset()) == q35_blob(
            c2,
            prefix,
            mid,
        ).subrange(0, madt_offset()),
        q35_blob(c1, prefix, mid).subrange(madt_offset(), mcfg_offset(c1)) == madt_image(c1),
{
    lemma_q35_parts(c1, prefix, mid);
    lemma_q35_parts(c2, prefix, mid);
    lemma_join3(
        q35_blob(c1, prefix, mid),
        qemu_facs(),
        spec_dsdt(prefix, mid),
        fadt_image(),
        DSDT_OFFSET as int,
        FADT_OFFSET as int,
        madt_offset(),
    );
    lemma_join3(
        q35_blob(c2, prefix, mid),
        qemu_facs(),
        spec_dsdt(prefix, mid),
        fadt_image(),
        DSDT_OFFSET as int,
        FADT_OFFSET as int,
        madt_offset(),
    );
}

/// The local APIC entry of processor `uid` stands at `8 * uid` among the
/// entries of every larger processor count.
pub proof fn lemma_local_apic_at(uid: int, n: nat)
    requires
        0 <= uid < n <= 256,
    ensures
        madt_local_apics(n).len() == 8 * n,
        madt_local_apics(n).subrange(8 * uid, 8 * uid + 8) == madt_local_apic(uid as u8),
    decreases n,
{
    lemma_madt_lengths(n);
    let prev = madt_local_apics((n - 1) as nat);
    let last = madt_local_apic((n - 1) as u8);
    lemma_madt_lengths((n - 1) as nat);
    if uid + 1 == n {
        assert((prev + last).subrange(8 * uid, 8 * uid + 8) =~= last);
    } else {
        lemma_local_apic_at(uid, (n - 1) as nat);
        assert((prev + last).subrange(8 * uid, 8 * uid + 8) =~= prev.subrange(
            8 * uid,
            8 * uid + 8,
        ));
    }
}

/// The `_MAT` buffer of each processor object in the DSDT holds the same
/// eight bytes as that processor's local APIC entry in the MADT, which
/// stands at `44 + 8 * uid` in the table, and so at `madt_offset() + 44 +
/// 8 * uid` in the blob.
pub proof fn lemma_mat_matches_madt(uid: u8, cpu_count: u8, prefix: Seq<u8>, mid: Seq<u8>)
    requires
        uid < cpu_count,
        prefix.len() == DSDT_PROCESSOR_BLOCK_OFFSET,
        mid.len() == DSDT_MID_LEN,
    ensures
        madt_local_apic(uid) == cpu_mat_data(uid),
        madt_image(cpu_count).subrange(44 + 8 * uid, 52 + 8 * uid) == cpu_mat_data(uid),
        q35_blob(cpu_count, prefix, mid).subrange(
            madt_offset() + 44 + 8 * uid,
            madt_offset() + 52 + 8 * uid,
        ) == cpu_mat_data(uid),
{
    assert(madt_local_apic(uid) =~= cpu_mat_data(uid));
    let n = cpu_count as nat;
    let apics = madt_local_apics(n);
    lemma_local_apic_at(uid as int, n);
    lemma_madt_len(cpu_count);
    let front = qemu_header(APIC_SIGNATURE@, madt_len(cpu_count) as u32, 3) + le32(0xfee0_0000)
        + le32(1);
    let back = madt_io_apic() + madt_isos(n) + madt_nmi();
    assert(madt_image(cpu_count) =~= front + apics + back) by {
        reveal(madt_image);
    }
    assert(front.len() == 44);
    assert((front + apics + back).subrange(44 + 8 * uid, 52 + 8 * uid) =~= apics.subrange(
        8 * uid,
        8 * uid + 8,
    ));
    lemma_q35_shared_front(cpu_count, cpu_count, prefix, mid);
    lemma_q35_parts(cpu_count, prefix, mid);
    lemma_sub_sub(
        q35_blob(cpu_count, prefix, mid),
        madt_offset(),
        madt_len(cpu_count),
        44 + 8 * uid,
        52 + 8 * uid,
    );
}

/// The ACPI blob of the default `q35` machine: sixteen processors.
pub fn qemu_q35_acpi_table(template: &QemuQ35DsdtTemplate) -> (blob: Vec<u8>)
    ensures
        blob@ == q35_blob(QEMU_Q35_CPU_COUNT, template.prefix_bytes(), template.mid_bytes()),
{
    match qemu_q35_acpi_table_from_profile(QemuQ35AcpiProfile::default(), template) {
        Ok(blob) => blob,
        Err(_) => {
            assert(false);
            Vec::new()
        },
    }
}

} // verus!
