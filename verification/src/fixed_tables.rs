//! The q35 tables byte for byte: the values that the builders' contracts
//! come to, written out, so that a reader can hold them against QEMU's
//! tables without following the encoders.
use vstd::prelude::*;
use crate::aml::{aml_eisa_name, eisa_compressed, swap_bytes32};
use crate::qemu::{
    aml_irq_no_flags, com1_device, cpu_processor, lemma_cpu_children_len, spec_cpu_name, dsdt_generated_tail, fadt_body, fadt_image, gpe_scope,
    kbd_device, lemma_fadt_len, lemma_local_apic_at, lemma_madt_lengths, lemma_madt_len, lemma_q35_parts,
    lemma_sub_sub, madt_image, madt_io_apic, madt_iso, madt_isos, madt_len, madt_local_apic,
    madt_local_apics, madt_nmi, madt_offset, mcfg_image, qemu_facs, waet_image, mou_device, q35_blob, qemu_header, rtc_device,
    sf_device, APIC_SIGNATURE, DSDT_MID_LEN, DSDT_PROCESSOR_BLOCK_OFFSET, FACP_SIGNATURE,
    FADT_LEN, FADT_OFFSET, PNP0303, PNP0501, PNP0B00, PNP0F13, SFA, SFB,
};
use crate::le::{le32};
use crate::hex::{hex_value, is_hex_digit};

verus! {

/// The four EISA IDs of the generated devices as the DSDT holds them.
proof fn lemma_eisa_names()
    ensures
        aml_eisa_name(PNP0303@) == seq![0x0cu8, 0x41u8, 0xd0u8, 0x03u8, 0x03u8],
        aml_eisa_name(PNP0F13@) == seq![0x0cu8, 0x41u8, 0xd0u8, 0x0fu8, 0x13u8],
        aml_eisa_name(PNP0501@) == seq![0x0cu8, 0x41u8, 0xd0u8, 0x05u8, 0x01u8],
        aml_eisa_name(PNP0B00@) == seq![0x0cu8, 0x41u8, 0xd0u8, 0x0bu8, 0x00u8],
{
    assert(PNP0303@ =~= seq![0x50u8, 0x4eu8, 0x50u8, 0x30u8, 0x33u8, 0x30u8, 0x33u8]);
    assert(eisa_compressed(PNP0303@) == ((16u32 << 26u32) | (14u32 << 21u32) | (16u32 << 16u32) | (0u32 << 12u32) | (3u32 << 8u32) | (0u32 << 4u32) | 3u32));
    assert(((16u32 << 26u32) | (14u32 << 21u32) | (16u32 << 16u32) | (0u32 << 12u32) | (3u32 << 8u32) | (0u32 << 4u32) | 3u32) == 0x41d00303u32) by (bit_vector);
    assert(swap_bytes32(0x41d00303u32) == 0x0303d041u32) by (bit_vector);
    assert(PNP0F13@ =~= seq![0x50u8, 0x4eu8, 0x50u8, 0x30u8, 0x46u8, 0x31u8, 0x33u8]);
    assert(eisa_compressed(PNP0F13@) == ((16u32 << 26u32) | (14u32 << 21u32) | (16u32 << 16u32) | (0u32 << 12u32) | (15u32 << 8u32) | (1u32 << 4u32) | 3u32));
    assert(((16u32 << 26u32) | (14u32 << 21u32) | (16u32 << 16u32) | (0u32 << 12u32) | (15u32 << 8u32) | (1u32 << 4u32) | 3u32) == 0x41d00f13u32) by (bit_vector);
    assert(swap_bytes32(0x41d00f13u32) == 0x130fd041u32) by (bit_vector);
    assert(PNP0501@ =~= seq![0x50u8, 0x4eu8, 0x50u8, 0x30u8, 0x35u8, 0x30u8, 0x31u8]);
    assert(eisa_compressed(PNP0501@) == ((16u32 << 26u32) | (14u32 << 21u32) | (16u32 << 16u32) | (0u32 << 12u32) | (5u32 << 8u32) | (0u32 << 4u32) | 1u32));
    assert(((16u32 << 26u32) | (14u32 << 21u32) | (16u32 << 16u32) | (0u32 << 12u32) | (5u32 << 8u32) | (0u32 << 4u32) | 1u32) == 0x41d00501u32) by (bit_vector);
    assert(swap_bytes32(0x41d00501u32) == 0x0105d041u32) by (bit_vector);
    assert(PNP0B00@ =~= seq![0x50u8, 0x4eu8, 0x50u8, 0x30u8, 0x42u8, 0x30u8, 0x30u8]);
    assert(eisa_compressed(PNP0B00@) == ((16u32 << 26u32) | (14u32 << 21u32) | (16u32 << 16u32) | (0u32 << 12u32) | (11u32 << 8u32) | (0u32 << 4u32) | 0u32));
    assert(((16u32 << 26u32) | (14u32 << 21u32) | (16u32 << 16u32) | (0u32 << 12u32) | (11u32 << 8u32) | (0u32 << 4u32) | 0u32) == 0x41d00b00u32) by (bit_vector);
    assert(swap_bytes32(0x41d00b00u32) == 0x000bd041u32) by (bit_vector);
}


/// The IRQ descriptors of the generated devices.
proof fn lemma_irq_descriptors()
    ensures
        aml_irq_no_flags(1) == seq![0x22u8, 0x02, 0x00],
        aml_irq_no_flags(4) == seq![0x22u8, 0x10, 0x00],
        aml_irq_no_flags(8) == seq![0x22u8, 0x00, 0x01],
        aml_irq_no_flags(12) == seq![0x22u8, 0x00, 0x10],
{
    assert((1u16 << 1u8) == 0x0002u16) by (bit_vector);
    assert((1u16 << 4u8) == 0x0010u16) by (bit_vector);
    assert((1u16 << 8u8) == 0x0100u16) by (bit_vector);
    assert((1u16 << 12u8) == 0x1000u16) by (bit_vector);
    assert(aml_irq_no_flags(1) =~= seq![0x22u8, 0x02, 0x00]);
    assert(aml_irq_no_flags(4) =~= seq![0x22u8, 0x10, 0x00]);
    assert(aml_irq_no_flags(8) =~= seq![0x22u8, 0x00, 0x01]);
    assert(aml_irq_no_flags(12) =~= seq![0x22u8, 0x00, 0x10]);
}

/// `Device (KBD_)` byte for byte.
proof fn lemma_kbd_bytes()
    ensures
        kbd_device() == seq![
            0x5bu8, 0x82, 0x34, 0x4b, 0x42, 0x44, 0x5f, 0x08, 0x5f, 0x48,
            0x49, 0x44, 0x0c, 0x41, 0xd0, 0x03, 0x03, 0x08, 0x5f, 0x53,
            0x54, 0x41, 0x0a, 0x0f, 0x08, 0x5f, 0x43, 0x52, 0x53, 0x11,
            0x18, 0x0a, 0x15, 0x47, 0x01, 0x60, 0x00, 0x60, 0x00, 0x01,
            0x01, 0x47, 0x01, 0x64, 0x00, 0x64, 0x00, 0x01, 0x01, 0x22,
            0x02, 0x00, 0x79, 0x00,
        ],
{
    lemma_eisa_names();
    lemma_irq_descriptors();
    assert(kbd_device() =~= seq![
        0x5bu8, 0x82, 0x34, 0x4b, 0x42, 0x44, 0x5f, 0x08, 0x5f, 0x48,
        0x49, 0x44, 0x0c, 0x41, 0xd0, 0x03, 0x03, 0x08, 0x5f, 0x53,
        0x54, 0x41, 0x0a, 0x0f, 0x08, 0x5f, 0x43, 0x52, 0x53, 0x11,
        0x18, 0x0a, 0x15, 0x47, 0x01, 0x60, 0x00, 0x60, 0x00, 0x01,
        0x01, 0x47, 0x01, 0x64, 0x00, 0x64, 0x00, 0x01, 0x01, 0x22,
        0x02, 0x00, 0x79, 0x00,
    ]);
}

/// `Device (MOU_)` byte for byte.
proof fn lemma_mou_bytes()
    ensures
        mou_device() == seq![
            0x5bu8, 0x82, 0x24, 0x4d, 0x4f, 0x55, 0x5f, 0x08, 0x5f, 0x48,
            0x49, 0x44, 0x0c, 0x41, 0xd0, 0x0f, 0x13, 0x08, 0x5f, 0x53,
            0x54, 0x41, 0x0a, 0x0f, 0x08, 0x5f, 0x43, 0x52, 0x53, 0x11,
            0x08, 0x0a, 0x05, 0x22, 0x00, 0x10, 0x79, 0x00,
        ],
{
    lemma_eisa_names();
    lemma_irq_descriptors();
    assert(mou_device() =~= seq![
        0x5bu8, 0x82, 0x24, 0x4d, 0x4f, 0x55, 0x5f, 0x08, 0x5f, 0x48,
        0x49, 0x44, 0x0c, 0x41, 0xd0, 0x0f, 0x13, 0x08, 0x5f, 0x53,
        0x54, 0x41, 0x0a, 0x0f, 0x08, 0x5f, 0x43, 0x52, 0x53, 0x11,
        0x08, 0x0a, 0x05, 0x22, 0x00, 0x10, 0x79, 0x00,
    ]);
}

/// `Device (COM1)` byte for byte.
proof fn lemma_com1_bytes()
    ensures
        com1_device() == seq![
            0x5bu8, 0x82, 0x32, 0x43, 0x4f, 0x4d, 0x31, 0x08, 0x5f, 0x48,
            0x49, 0x44, 0x0c, 0x41, 0xd0, 0x05, 0x01, 0x08, 0x5f, 0x55,
            0x49, 0x44, 0x01, 0x08, 0x5f, 0x53, 0x54, 0x41, 0x0a, 0x0f,
            0x08, 0x5f, 0x43, 0x52, 0x53, 0x11, 0x10, 0x0a, 0x0d, 0x47,
            0x01, 0xf8, 0x03, 0xf8, 0x03, 0x00, 0x08, 0x22, 0x10, 0x00,
            0x79, 0x00,
        ],
{
    lemma_eisa_names();
    lemma_irq_descriptors();
    assert(com1_device() =~= seq![
        0x5bu8, 0x82, 0x32, 0x43, 0x4f, 0x4d, 0x31, 0x08, 0x5f, 0x48,
        0x49, 0x44, 0x0c, 0x41, 0xd0, 0x05, 0x01, 0x08, 0x5f, 0x55,
        0x49, 0x44, 0x01, 0x08, 0x5f, 0x53, 0x54, 0x41, 0x0a, 0x0f,
        0x08, 0x5f, 0x43, 0x52, 0x53, 0x11, 0x10, 0x0a, 0x0d, 0x47,
        0x01, 0xf8, 0x03, 0xf8, 0x03, 0x00, 0x08, 0x22, 0x10, 0x00,
        0x79, 0x00,
    ]);
}

/// `Device (RTC_)` byte for byte.
proof fn lemma_rtc_bytes()
    ensures
        rtc_device() == seq![
            0x5bu8, 0x82, 0x25, 0x52, 0x54, 0x43, 0x5f, 0x08, 0x5f, 0x48,
            0x49, 0x44, 0x0c, 0x41, 0xd0, 0x0b, 0x00, 0x08, 0x5f, 0x43,
            0x52, 0x53, 0x11, 0x10, 0x0a, 0x0d, 0x47, 0x01, 0x70, 0x00,
            0x70, 0x00, 0x01, 0x08, 0x22, 0x00, 0x01, 0x79, 0x00,
        ],
{
    lemma_eisa_names();
    lemma_irq_descriptors();
    assert(rtc_device() =~= seq![
        0x5bu8, 0x82, 0x25, 0x52, 0x54, 0x43, 0x5f, 0x08, 0x5f, 0x48,
        0x49, 0x44, 0x0c, 0x41, 0xd0, 0x0b, 0x00, 0x08, 0x5f, 0x43,
        0x52, 0x53, 0x11, 0x10, 0x0a, 0x0d, 0x47, 0x01, 0x70, 0x00,
        0x70, 0x00, 0x01, 0x08, 0x22, 0x00, 0x01, 0x79, 0x00,
    ]);
}

/// `Device (SFA_)` byte for byte.
proof fn lemma_sfa_bytes()
    ensures
        sf_device(SFA@, 0x001f_0002) == seq![
            0x5bu8, 0x82, 0x0f, 0x53, 0x46, 0x41, 0x5f, 0x08, 0x5f, 0x41,
            0x44, 0x52, 0x0c, 0x02, 0x00, 0x1f, 0x00,
        ],
{
    lemma_eisa_names();
    lemma_irq_descriptors();
    assert(sf_device(SFA@, 0x001f_0002) =~= seq![
        0x5bu8, 0x82, 0x0f, 0x53, 0x46, 0x41, 0x5f, 0x08, 0x5f, 0x41,
        0x44, 0x52, 0x0c, 0x02, 0x00, 0x1f, 0x00,
    ]);
}

/// `Device (SFB_)` byte for byte.
proof fn lemma_sfb_bytes()
    ensures
        sf_device(SFB@, 0x001f_0003) == seq![
            0x5bu8, 0x82, 0x0f, 0x53, 0x46, 0x42, 0x5f, 0x08, 0x5f, 0x41,
            0x44, 0x52, 0x0c, 0x03, 0x00, 0x1f, 0x00,
        ],
{
    lemma_eisa_names();
    lemma_irq_descriptors();
    assert(sf_device(SFB@, 0x001f_0003) =~= seq![
        0x5bu8, 0x82, 0x0f, 0x53, 0x46, 0x42, 0x5f, 0x08, 0x5f, 0x41,
        0x44, 0x52, 0x0c, 0x03, 0x00, 0x1f, 0x00,
    ]);
}

/// `Scope (_GPE)` byte for byte.
proof fn lemma_gpe_bytes()
    ensures
        gpe_scope() == seq![
            0x10u8, 0x0c, 0x5f, 0x47, 0x50, 0x45, 0x14, 0x06, 0x5f, 0x45,
            0x30, 0x31, 0x00,
        ],
{
    lemma_eisa_names();
    lemma_irq_descriptors();
    assert(gpe_scope() =~= seq![
        0x10u8, 0x0c, 0x5f, 0x47, 0x50, 0x45, 0x14, 0x06, 0x5f, 0x45,
        0x30, 0x31, 0x00,
    ]);
}

/// The generated end of the DSDT is QEMU's: the keyboard at ports 0x60 and
/// 0x64 with IRQ 1, the mouse with IRQ 12, COM1 at ports 0x3f8-0x3ff with
/// IRQ 4, the RTC at ports 0x70-0x77 with IRQ 8, the LPC functions 0x001f0002
/// and 0x001f0003 and the `_GPE` scope with an empty `_E01`, 230 bytes in
/// all.
#[verifier::spinoff_prover]
#[verifier::rlimit(60)]
pub proof fn lemma_dsdt_generated_tail_bytes()
    ensures
        dsdt_generated_tail() ==
            // Device (KBD_)
            seq![
                0x5bu8, 0x82, 0x34, 0x4b, 0x42, 0x44, 0x5f, 0x08, 0x5f, 0x48,
                0x49, 0x44, 0x0c, 0x41, 0xd0, 0x03, 0x03, 0x08, 0x5f, 0x53,
                0x54, 0x41, 0x0a, 0x0f, 0x08, 0x5f, 0x43, 0x52, 0x53, 0x11,
                0x18, 0x0a, 0x15, 0x47, 0x01, 0x60, 0x00, 0x60, 0x00, 0x01,
                0x01, 0x47, 0x01, 0x64, 0x00, 0x64, 0x00, 0x01, 0x01, 0x22,
                0x02, 0x00, 0x79, 0x00,
            ] +
            // Device (MOU_)
            seq![
                0x5bu8, 0x82, 0x24, 0x4d, 0x4f, 0x55, 0x5f, 0x08, 0x5f, 0x48,
                0x49, 0x44, 0x0c, 0x41, 0xd0, 0x0f, 0x13, 0x08, 0x5f, 0x53,
                0x54, 0x41, 0x0a, 0x0f, 0x08, 0x5f, 0x43, 0x52, 0x53, 0x11,
                0x08, 0x0a, 0x05, 0x22, 0x00, 0x10, 0x79, 0x00,
            ] +
            // Device (COM1)
            seq![
                0x5bu8, 0x82, 0x32, 0x43, 0x4f, 0x4d, 0x31, 0x08, 0x5f, 0x48,
                0x49, 0x44, 0x0c, 0x41, 0xd0, 0x05, 0x01, 0x08, 0x5f, 0x55,
                0x49, 0x44, 0x01, 0x08, 0x5f, 0x53, 0x54, 0x41, 0x0a, 0x0f,
                0x08, 0x5f, 0x43, 0x52, 0x53, 0x11, 0x10, 0x0a, 0x0d, 0x47,
                0x01, 0xf8, 0x03, 0xf8, 0x03, 0x00, 0x08, 0x22, 0x10, 0x00,
                0x79, 0x00,
            ] +
            // Device (RTC_)
            seq![
                0x5bu8, 0x82, 0x25, 0x52, 0x54, 0x43, 0x5f, 0x08, 0x5f, 0x48,
                0x49, 0x44, 0x0c, 0x41, 0xd0, 0x0b, 0x00, 0x08, 0x5f, 0x43,
                0x52, 0x53, 0x11, 0x10, 0x0a, 0x0d, 0x47, 0x01, 0x70, 0x00,
                0x70, 0x00, 0x01, 0x08, 0x22, 0x00, 0x01, 0x79, 0x00,
            ] +
            // Device (SFA_)
            seq![
                0x5bu8, 0x82, 0x0f, 0x53, 0x46, 0x41, 0x5f, 0x08, 0x5f, 0x41,
                0x44, 0x52, 0x0c, 0x02, 0x00, 0x1f, 0x00,
            ] +
            // Device (SFB_)
            seq![
                0x5bu8, 0x82, 0x0f, 0x53, 0x46, 0x42, 0x5f, 0x08, 0x5f, 0x41,
                0x44, 0x52, 0x0c, 0x03, 0x00, 0x1f, 0x00,
            ] +
            // Scope (_GPE)
            seq![
                0x10u8, 0x0c, 0x5f, 0x47, 0x50, 0x45, 0x14, 0x06, 0x5f, 0x45,
                0x30, 0x31, 0x00,
            ],
{
    reveal(dsdt_generated_tail);
    lemma_kbd_bytes();
    lemma_mou_bytes();
    lemma_com1_bytes();
    lemma_rtc_bytes();
    lemma_sfa_bytes();
    lemma_sfb_bytes();
    lemma_gpe_bytes();
}

/// The `_CRS` of COM1 in the generated end of the DSDT: `IO (Decode16,
/// 0x3F8, 0x3F8, 0, 8)` and `IRQNoFlags () {4}`, at bytes 131 to 142.
pub proof fn lemma_com1_resources()
    ensures
        dsdt_generated_tail().subrange(131, 142) == seq![
            0x47u8, 0x01, 0xf8, 0x03, 0xf8, 0x03, 0x00, 0x08, 0x22, 0x10, 0x00,
        ],
{
    lemma_dsdt_generated_tail_bytes();
    assert(dsdt_generated_tail().subrange(131, 142) =~= seq![
        0x47u8, 0x01, 0xf8, 0x03, 0xf8, 0x03, 0x00, 0x08, 0x22, 0x10, 0x00,
    ]);
}

// ---------------------------------------------------------------- FADT

/// The FADT after its header, byte for byte: the DSDT at 0x40; PM1a event,
/// PM1a control, PM timer and GPE0 blocks at the I/O ports 0x600, 0x604,
/// 0x608 and 0x620 with lengths 4, 2, 4 and 16; SCI on IRQ 9; the reset
/// register at port 0xcf9 with value 0x0f; and the same blocks again as
/// extended registers.
pub proof fn lemma_fadt_bytes()
    ensures
        fadt_image().len() == 244,
        fadt_image().subrange(36, 244) == seq![
            0x00u8, 0x00, 0x00, 0x00, 0x40, 0x00, 0x00, 0x00, 0x01, 0x00, 0x09, 0x00,  // 36
            0x00, 0x00, 0x00, 0x00, 0x00, 0x00, 0x00, 0x00, 0x00, 0x06, 0x00, 0x00,  // 48
            0x00, 0x00, 0x00, 0x00, 0x04, 0x06, 0x00, 0x00, 0x00, 0x00, 0x00, 0x00,  // 60
            0x00, 0x00, 0x00, 0x00, 0x08, 0x06, 0x00, 0x00, 0x20, 0x06, 0x00, 0x00,  // 72
            0x00, 0x00, 0x00, 0x00, 0x04, 0x02, 0x00, 0x04, 0x10, 0x00, 0x00, 0x00,  // 84
            0xff, 0x0f, 0xff, 0x0f, 0x00, 0x00, 0x00, 0x00, 0x00, 0x00, 0x00, 0x00,  // 96
            0x32, 0x02, 0x00, 0x00, 0xa5, 0x84, 0x04, 0x00, 0x01, 0x08, 0x00, 0x00,  // 108
            0xf9, 0x0c, 0x00, 0x00, 0x00, 0x00, 0x00, 0x00, 0x0f, 0x00, 0x00, 0x00,  // 120
            0x00, 0x00, 0x00, 0x00, 0x00, 0x00, 0x00, 0x00, 0x40, 0x00, 0x00, 0x00,  // 132
            0x00, 0x00, 0x00, 0x00, 0x01, 0x20, 0x00, 0x00, 0x00, 0x06, 0x00, 0x00,  // 144
            0x00, 0x00, 0x00, 0x00, 0x00, 0x00, 0x00, 0x00, 0x00, 0x00, 0x00, 0x00,  // 156
            0x00, 0x00, 0x00, 0x00, 0x01, 0x10, 0x00, 0x00, 0x04, 0x06, 0x00, 0x00,  // 168
            0x00, 0x00, 0x00, 0x00, 0x00, 0x00, 0x00, 0x00, 0x00, 0x00, 0x00, 0x00,  // 180
            0x00, 0x00, 0x00, 0x00, 0x00, 0x00, 0x00, 0x00, 0x00, 0x00, 0x00, 0x00,  // 192
            0x00, 0x00, 0x00, 0x00, 0x01, 0x20, 0x00, 0x00, 0x08, 0x06, 0x00, 0x00,  // 204
            0x00, 0x00, 0x00, 0x00, 0x01, 0x80, 0x00, 0x00, 0x20, 0x06, 0x00, 0x00,  // 216
            0x00, 0x00, 0x00, 0x00, 0x00, 0x00, 0x00, 0x00, 0x00, 0x00, 0x00, 0x00,  // 228
            0x00, 0x00, 0x00, 0x00,  // 240
        ],
{
    lemma_fadt_len();
    reveal(fadt_image);
    assert(qemu_header(FACP_SIGNATURE@, FADT_LEN, 3).len() == 36);
    assert(fadt_image().subrange(36, 244) =~= fadt_body());
    assert(fadt_body() =~= seq![
        0x00u8, 0x00, 0x00, 0x00, 0x40, 0x00, 0x00, 0x00, 0x01, 0x00, 0x09, 0x00,  // 36
        0x00, 0x00, 0x00, 0x00, 0x00, 0x00, 0x00, 0x00, 0x00, 0x06, 0x00, 0x00,  // 48
        0x00, 0x00, 0x00, 0x00, 0x04, 0x06, 0x00, 0x00, 0x00, 0x00, 0x00, 0x00,  // 60
        0x00, 0x00, 0x00, 0x00, 0x08, 0x06, 0x00, 0x00, 0x20, 0x06, 0x00, 0x00,  // 72
        0x00, 0x00, 0x00, 0x00, 0x04, 0x02, 0x00, 0x04, 0x10, 0x00, 0x00, 0x00,  // 84
        0xff, 0x0f, 0xff, 0x0f, 0x00, 0x00, 0x00, 0x00, 0x00, 0x00, 0x00, 0x00,  // 96
        0x32, 0x02, 0x00, 0x00, 0xa5, 0x84, 0x04, 0x00, 0x01, 0x08, 0x00, 0x00,  // 108
        0xf9, 0x0c, 0x00, 0x00, 0x00, 0x00, 0x00, 0x00, 0x0f, 0x00, 0x00, 0x00,  // 120
        0x00, 0x00, 0x00, 0x00, 0x00, 0x00, 0x00, 0x00, 0x40, 0x00, 0x00, 0x00,  // 132
        0x00, 0x00, 0x00, 0x00, 0x01, 0x20, 0x00, 0x00, 0x00, 0x06, 0x00, 0x00,  // 144
        0x00, 0x00, 0x00, 0x00, 0x00, 0x00, 0x00, 0x00, 0x00, 0x00, 0x00, 0x00,  // 156
        0x00, 0x00, 0x00, 0x00, 0x01, 0x10, 0x00, 0x00, 0x04, 0x06, 0x00, 0x00,  // 168
        0x00, 0x00, 0x00, 0x00, 0x00, 0x00, 0x00, 0x00, 0x00, 0x00, 0x00, 0x00,  // 180
        0x00, 0x00, 0x00, 0x00, 0x00, 0x00, 0x00, 0x00, 0x00, 0x00, 0x00, 0x00,  // 192
        0x00, 0x00, 0x00, 0x00, 0x01, 0x20, 0x00, 0x00, 0x08, 0x06, 0x00, 0x00,  // 204
        0x00, 0x00, 0x00, 0x00, 0x01, 0x80, 0x00, 0x00, 0x20, 0x06, 0x00, 0x00,  // 216
        0x00, 0x00, 0x00, 0x00, 0x00, 0x00, 0x00, 0x00, 0x00, 0x00, 0x00, 0x00,  // 228
        0x00, 0x00, 0x00, 0x00,  // 240
    ]);
}

/// Each fixed register block of the FADT names the same I/O port as its
/// extended register, and its length field is the extended register's bit
/// width in bytes; the blocks that QEMU does not have are zero in both
/// forms. The DSDT pointer agrees with the extended DSDT pointer.
pub proof fn lemma_fadt_blocks_agree()
    ensures
        ({
            let f = fadt_image();
            // PM1a_EVT_BLK and X_PM1a_EVT_BLK, PM1_EVT_LEN
            &&& f.subrange(56, 60) == f.subrange(152, 156)
            &&& f[148] == 1 && f[149] == 8 * f[88]
            // PM1a_CNT_BLK and X_PM1a_CNT_BLK, PM1_CNT_LEN
            &&& f.subrange(64, 68) == f.subrange(176, 180)
            &&& f[172] == 1 && f[173] == 8 * f[89]
            // PM_TMR_BLK and X_PM_TMR_BLK, PM_TMR_LEN
            &&& f.subrange(76, 80) == f.subrange(212, 216)
            &&& f[208] == 1 && f[209] == 8 * f[91]
            // GPE0_BLK and X_GPE0_BLK, GPE0_BLK_LEN
            &&& f.subrange(80, 84) == f.subrange(224, 228)
            &&& f[220] == 1 && f[221] == 8 * f[92]
            // the extended addresses fit in 32 bits
            &&& f.subrange(156, 160) == seq![0u8, 0, 0, 0]
            &&& f.subrange(180, 184) == seq![0u8, 0, 0, 0]
            &&& f.subrange(216, 220) == seq![0u8, 0, 0, 0]
            &&& f.subrange(228, 232) == seq![0u8, 0, 0, 0]
            // PM1b_EVT, PM1b_CNT, PM2_CNT and GPE1 are absent in both forms
            &&& f.subrange(60, 64) == seq![0u8, 0, 0, 0]
            &&& f.subrange(68, 76) == seq![0u8, 0, 0, 0, 0, 0, 0, 0]
            &&& f.subrange(84, 88) == seq![0u8, 0, 0, 0]
            &&& f.subrange(160, 172) == seq![0u8, 0, 0, 0, 0, 0, 0, 0, 0, 0, 0, 0]
            &&& f.subrange(184, 208) == Seq::new(24, |i: int| 0u8)
            &&& f.subrange(232, 244) == seq![0u8, 0, 0, 0, 0, 0, 0, 0, 0, 0, 0, 0]
            // DSDT and X_DSDT
            &&& f.subrange(40, 44) == f.subrange(140, 144)
            &&& f.subrange(144, 148) == seq![0u8, 0, 0, 0]
        }),
{
    lemma_fadt_bytes();
    let f = fadt_image();
    let b = f.subrange(36, 244);
    assert forall|i: int| 36 <= i < 244 implies f[i] == #[trigger] b[i - 36] by {}
    assert(f.subrange(56, 60) =~= f.subrange(152, 156));
    assert(f.subrange(64, 68) =~= f.subrange(176, 180));
    assert(f.subrange(76, 80) =~= f.subrange(212, 216));
    assert(f.subrange(80, 84) =~= f.subrange(224, 228));
    assert(f.subrange(156, 160) =~= seq![0u8, 0, 0, 0]);
    assert(f.subrange(180, 184) =~= seq![0u8, 0, 0, 0]);
    assert(f.subrange(216, 220) =~= seq![0u8, 0, 0, 0]);
    assert(f.subrange(228, 232) =~= seq![0u8, 0, 0, 0]);
    assert(f.subrange(60, 64) =~= seq![0u8, 0, 0, 0]);
    assert(f.subrange(68, 76) =~= seq![0u8, 0, 0, 0, 0, 0, 0, 0]);
    assert(f.subrange(84, 88) =~= seq![0u8, 0, 0, 0]);
    assert(f.subrange(160, 172) =~= seq![0u8, 0, 0, 0, 0, 0, 0, 0, 0, 0, 0, 0]);
    assert(f.subrange(184, 208) =~= Seq::new(24, |i: int| 0u8));
    assert(f.subrange(232, 244) =~= seq![0u8, 0, 0, 0, 0, 0, 0, 0, 0, 0, 0, 0]);
    assert(f.subrange(40, 44) =~= f.subrange(140, 144));
    assert(f.subrange(144, 148) =~= seq![0u8, 0, 0, 0]);
}

/// In every blob the FADT stands at `FADT_OFFSET` with the body above.
pub proof fn lemma_q35_fadt_bytes(cpu_count: u8, prefix: Seq<u8>, mid: Seq<u8>)
    requires
        prefix.len() == DSDT_PROCESSOR_BLOCK_OFFSET,
        mid.len() == DSDT_MID_LEN,
    ensures
        q35_blob(cpu_count, prefix, mid).subrange(FADT_OFFSET + 36, FADT_OFFSET + 244)
            == fadt_image().subrange(36, 244),
{
    lemma_q35_parts(cpu_count, prefix, mid);
    lemma_fadt_bytes();
    lemma_sub_sub(q35_blob(cpu_count, prefix, mid), FADT_OFFSET as int, 244, 36, 244);
}

// ---------------------------------------------------------------- MADT

/// The interrupt override entry of ISA IRQ `irq` stands at `10 * irq` among
/// the overrides of every larger count.
proof fn lemma_iso_at(irq: int, n: nat)
    requires
        0 <= irq < n <= 256,
    ensures
        madt_isos(n).len() == 10 * n,
        madt_isos(n).subrange(10 * irq, 10 * irq + 10) == madt_iso(irq as u8),
    decreases n,
{
    lemma_madt_lengths(n);
    let prev = madt_isos((n - 1) as nat);
    let last = madt_iso((n - 1) as u8);
    lemma_madt_lengths((n - 1) as nat);
    if irq + 1 == n {
        assert((prev + last).subrange(10 * irq, 10 * irq + 10) =~= last);
    } else {
        lemma_iso_at(irq, (n - 1) as nat);
        assert((prev + last).subrange(10 * irq, 10 * irq + 10) =~= prev.subrange(
            10 * irq,
            10 * irq + 10,
        ));
    }
}

/// The MADT for `cpu_count` processors after its header, entry by entry:
/// the local APIC address 0xfee00000 and the PC-AT flag; an enabled local
/// APIC per processor, its APIC ID its UID; the I/O APIC 0 at 0xfec00000
/// from GSI 0; an override per ISA IRQ below `cpu_count`, IRQ 0 to GSI 2
/// and every other to its own GSI, each with flags 0x0005 (high active,
/// edge triggered); and the NMI on LINT1 of every processor.
pub proof fn lemma_madt_bytes(cpu_count: u8)
    ensures
        ({
            let t = madt_image(cpu_count);
            let n = cpu_count as int;
            &&& t.len() == 62 + 18 * n
            &&& t.subrange(36, 44) == seq![0x00u8, 0x00, 0xe0, 0xfe, 0x01, 0x00, 0x00, 0x00]
            &&& forall|uid: int|
                #![trigger t.subrange(44 + 8 * uid, 52 + 8 * uid)]
                0 <= uid < n ==> t.subrange(44 + 8 * uid, 52 + 8 * uid) == seq![
                    0x00u8,
                    0x08,
                    uid as u8,
                    uid as u8,
                    0x01,
                    0x00,
                    0x00,
                    0x00,
                ]
            &&& t.subrange(44 + 8 * n, 56 + 8 * n) == seq![
                0x01u8,
                0x0c,
                0x00,
                0x00,
                0x00,
                0x00,
                0xc0,
                0xfe,
                0x00,
                0x00,
                0x00,
                0x00,
            ]
            &&& forall|irq: int|
                #![trigger t.subrange(56 + 8 * n + 10 * irq, 66 + 8 * n + 10 * irq)]
                0 <= irq < n ==> t.subrange(56 + 8 * n + 10 * irq, 66 + 8 * n + 10 * irq) == seq![
                    0x02u8,
                    0x0a,
                    0x00,
                    irq as u8,
                    if irq == 0 {
                        0x02u8
                    } else {
                        irq as u8
                    },
                    0x00,
                    0x00,
                    0x00,
                    0x05,
                    0x00,
                ]
            &&& t.subrange(56 + 18 * n, 62 + 18 * n) == seq![0x04u8, 0x06, 0xff, 0x00, 0x00, 0x01]
        }),
{
    let t = madt_image(cpu_count);
    let n = cpu_count as int;
    lemma_madt_len(cpu_count);
    lemma_madt_lengths(n as nat);
    let front = qemu_header(APIC_SIGNATURE@, madt_len(cpu_count) as u32, 3) + le32(0xfee0_0000)
        + le32(1);
    let apics = madt_local_apics(n as nat);
    let io = madt_io_apic();
    let isos = madt_isos(n as nat);
    let nmi = madt_nmi();
    assert(t == front + apics + io + isos + nmi) by {
        reveal(madt_image);
    }
    assert(front.len() == 44);
    assert(t.subrange(36, 44) =~= seq![0x00u8, 0x00, 0xe0, 0xfe, 0x01, 0x00, 0x00, 0x00]);
    assert forall|uid: int| 0 <= uid < n implies #[trigger] t.subrange(44 + 8 * uid, 52 + 8 * uid)
        == seq![0x00u8, 0x08, uid as u8, uid as u8, 0x01, 0x00, 0x00, 0x00] by {
        lemma_local_apic_at(uid, n as nat);
        assert(madt_local_apic(uid as u8) =~= seq![
            0x00u8,
            0x08,
            uid as u8,
            uid as u8,
            0x01,
            0x00,
            0x00,
            0x00,
        ]);
        assert(t.subrange(44 + 8 * uid, 52 + 8 * uid) =~= apics.subrange(8 * uid, 8 * uid + 8));
    }
    assert(t.subrange(44 + 8 * n, 56 + 8 * n) =~= seq![
        0x01u8,
        0x0c,
        0x00,
        0x00,
        0x00,
        0x00,
        0xc0,
        0xfe,
        0x00,
        0x00,
        0x00,
        0x00,
    ]);
    assert forall|irq: int| 0 <= irq < n implies #[trigger] t.subrange(
        56 + 8 * n + 10 * irq,
        66 + 8 * n + 10 * irq,
    ) == seq![
        0x02u8,
        0x0a,
        0x00,
        irq as u8,
        if irq == 0 {
            0x02u8
        } else {
            irq as u8
        },
        0x00,
        0x00,
        0x00,
        0x05,
        0x00,
    ] by {
        lemma_iso_at(irq, n as nat);
        let lit = seq![
            0x02u8,
            0x0a,
            0x00,
            irq as u8,
            if irq == 0 {
                0x02u8
            } else {
                irq as u8
            },
            0x00,
            0x00,
            0x00,
            0x05,
            0x00,
        ];
        assert(madt_iso(irq as u8) =~= lit);
        let o = 56 + 8 * n;
        assert(t.subrange(o + 10 * irq, o + 10 * irq + 10) =~= isos.subrange(
            10 * irq,
            10 * irq + 10,
        ));
    }
    assert(t.subrange(56 + 18 * n, 62 + 18 * n) =~= seq![0x04u8, 0x06, 0xff, 0x00, 0x00, 0x01]);
}

// ---------------------------------------------------------------- DSDT processors

/// The name of the processor object of `uid` is `C0` and two uppercase
/// hexadecimal digits that read back as `uid`.
pub proof fn lemma_cpu_name_reads_back(uid: u8)
    ensures
        spec_cpu_name(uid).len() == 4,
        spec_cpu_name(uid)[0] == 0x43,
        spec_cpu_name(uid)[1] == 0x30,
        is_hex_digit(spec_cpu_name(uid)[2]) && spec_cpu_name(uid)[2] < 0x61,
        is_hex_digit(spec_cpu_name(uid)[3]) && spec_cpu_name(uid)[3] < 0x61,
        hex_value(spec_cpu_name(uid)[2]) * 16 + hex_value(spec_cpu_name(uid)[3]) == uid,
{
    assert(uid == (uid / 16) * 16 + uid % 16);
}

/// The processor object of the first processor, byte for byte:
/// `Processor (C000, 0x00, 0, 0)` with `_STA` returning `CSTA (0)`, `_MAT`,
/// no `_EJ0`, and `_OST` calling `COST (0, Arg0, Arg1, Arg2)`.
pub proof fn lemma_first_processor_bytes()
    ensures
        cpu_processor(0) == seq![
            0x5bu8, 0x83, 0x38, 0x43, 0x30, 0x30, 0x30, 0x00, 0x00, 0x00, 0x00, 0x00, 0x00,
            0x14, 0x0c, 0x5f, 0x53, 0x54, 0x41, 0x08, 0xa4, 0x43, 0x53, 0x54, 0x41, 0x00,
            0x08, 0x5f, 0x4d, 0x41, 0x54, 0x11, 0x0b, 0x0a, 0x08,
            0x00, 0x08, 0x00, 0x00, 0x01, 0x00, 0x00, 0x00,
            0x14, 0x0e, 0x5f, 0x4f, 0x53, 0x54, 0x0b, 0x43, 0x4f, 0x53, 0x54, 0x00, 0x68, 0x69,
            0x6a,
        ],
{
    lemma_cpu_children_len(0);
    assert(cpu_processor(0) =~= seq![
        0x5bu8, 0x83, 0x38, 0x43, 0x30, 0x30, 0x30, 0x00, 0x00, 0x00, 0x00, 0x00, 0x00,
        0x14, 0x0c, 0x5f, 0x53, 0x54, 0x41, 0x08, 0xa4, 0x43, 0x53, 0x54, 0x41, 0x00,
        0x08, 0x5f, 0x4d, 0x41, 0x54, 0x11, 0x0b, 0x0a, 0x08,
        0x00, 0x08, 0x00, 0x00, 0x01, 0x00, 0x00, 0x00,
        0x14, 0x0e, 0x5f, 0x4f, 0x53, 0x54, 0x0b, 0x43, 0x4f, 0x53, 0x54, 0x00, 0x68, 0x69,
        0x6a,
    ]);
}

/// The processor object of the second processor, byte for byte: as the
/// first, with `_EJ0` calling `CEJ0 (1)` added.
pub proof fn lemma_second_processor_bytes()
    ensures
        cpu_processor(1) == seq![
            0x5bu8, 0x83, 0x45, 0x04, 0x43, 0x30, 0x30, 0x31, 0x01, 0x00, 0x00, 0x00, 0x00,
            0x00, 0x14, 0x0c, 0x5f, 0x53, 0x54, 0x41, 0x08, 0xa4, 0x43, 0x53, 0x54, 0x41,
            0x01, 0x08, 0x5f, 0x4d, 0x41, 0x54, 0x11, 0x0b, 0x0a, 0x08,
            0x00, 0x08, 0x01, 0x01, 0x01, 0x00, 0x00, 0x00,
            0x14, 0x0b, 0x5f, 0x45, 0x4a, 0x30, 0x01, 0x43, 0x45, 0x4a, 0x30, 0x01,
            0x14, 0x0e, 0x5f, 0x4f, 0x53, 0x54, 0x0b, 0x43, 0x4f, 0x53, 0x54, 0x01, 0x68, 0x69,
            0x6a,
        ],
{
    lemma_cpu_children_len(1);
    assert(cpu_processor(1) =~= seq![
        0x5bu8, 0x83, 0x45, 0x04, 0x43, 0x30, 0x30, 0x31, 0x01, 0x00, 0x00, 0x00, 0x00,
        0x00, 0x14, 0x0c, 0x5f, 0x53, 0x54, 0x41, 0x08, 0xa4, 0x43, 0x53, 0x54, 0x41,
        0x01, 0x08, 0x5f, 0x4d, 0x41, 0x54, 0x11, 0x0b, 0x0a, 0x08,
        0x00, 0x08, 0x01, 0x01, 0x01, 0x00, 0x00, 0x00,
        0x14, 0x0b, 0x5f, 0x45, 0x4a, 0x30, 0x01, 0x43, 0x45, 0x4a, 0x30, 0x01,
        0x14, 0x0e, 0x5f, 0x4f, 0x53, 0x54, 0x0b, 0x43, 0x4f, 0x53, 0x54, 0x01, 0x68, 0x69,
        0x6a,
    ]);
}

/// The processor object of every later processor, byte for byte, `uid`
/// taking the form `0x0a uid` where it is an argument:
/// `Processor (Cxxx, uid, 0, 0)` with `_STA` returning `CSTA (uid)`, `_MAT`
/// holding the local APIC entry, `_EJ0` calling `CEJ0 (uid)`, and `_OST`
/// calling `COST (uid, Arg0, Arg1, Arg2)`.
pub proof fn lemma_later_processor_bytes(uid: u8)
    requires
        uid >= 2,
    ensures
        cpu_processor(uid) == seq![0x5bu8, 0x83, 0x48, 0x04] + spec_cpu_name(uid) + seq![
            uid, 0x00, 0x00, 0x00, 0x00, 0x00,
            0x14, 0x0d, 0x5f, 0x53, 0x54, 0x41, 0x08, 0xa4, 0x43, 0x53, 0x54, 0x41, 0x0a, uid,
            0x08, 0x5f, 0x4d, 0x41, 0x54, 0x11, 0x0b, 0x0a, 0x08,
            0x00, 0x08, uid, uid, 0x01, 0x00, 0x00, 0x00,
            0x14, 0x0c, 0x5f, 0x45, 0x4a, 0x30, 0x01, 0x43, 0x45, 0x4a, 0x30, 0x0a, uid,
            0x14, 0x0f, 0x5f, 0x4f, 0x53, 0x54, 0x0b, 0x43, 0x4f, 0x53, 0x54, 0x0a, uid, 0x68,
            0x69, 0x6a,
        ],
{
    lemma_cpu_children_len(uid);
    assert(cpu_processor(uid) =~= seq![0x5bu8, 0x83, 0x48, 0x04] + spec_cpu_name(uid) + seq![
        uid, 0x00, 0x00, 0x00, 0x00, 0x00,
        0x14, 0x0d, 0x5f, 0x53, 0x54, 0x41, 0x08, 0xa4, 0x43, 0x53, 0x54, 0x41, 0x0a, uid,
        0x08, 0x5f, 0x4d, 0x41, 0x54, 0x11, 0x0b, 0x0a, 0x08,
        0x00, 0x08, uid, uid, 0x01, 0x00, 0x00, 0x00,
        0x14, 0x0c, 0x5f, 0x45, 0x4a, 0x30, 0x01, 0x43, 0x45, 0x4a, 0x30, 0x0a, uid,
        0x14, 0x0f, 0x5f, 0x4f, 0x53, 0x54, 0x0b, 0x43, 0x4f, 0x53, 0x54, 0x0a, uid, 0x68,
        0x69, 0x6a,
    ]);
}

// ---------------------------------------------------------------- headers and small tables

/// Every header of QEMU's tables: the signature, the length, the revision,
/// a cleared checksum, OEM `BOCHS ` and table `BXPC    ` at revision 1, and
/// creator `BXPC` at revision 1.
pub proof fn lemma_qemu_header_bytes(signature: Seq<u8>, length: u32, revision: u8)
    requires
        signature.len() == 4,
    ensures
        qemu_header(signature, length, revision) == signature + le32(length) + seq![
            revision,
            0x00,
            0x42,
            0x4f,
            0x43,
            0x48,
            0x53,
            0x20,
            0x42,
            0x58,
            0x50,
            0x43,
            0x20,
            0x20,
            0x20,
            0x20,
            0x01,
            0x00,
            0x00,
            0x00,
            0x42,
            0x58,
            0x50,
            0x43,
            0x01,
            0x00,
            0x00,
            0x00,
        ],
{
    assert(qemu_header(signature, length, revision) =~= signature + le32(length) + seq![
        revision,
        0x00,
        0x42,
        0x4f,
        0x43,
        0x48,
        0x53,
        0x20,
        0x42,
        0x58,
        0x50,
        0x43,
        0x20,
        0x20,
        0x20,
        0x20,
        0x01,
        0x00,
        0x00,
        0x00,
        0x42,
        0x58,
        0x50,
        0x43,
        0x01,
        0x00,
        0x00,
        0x00,
    ]);
}

/// The MCFG after its header: eight reserved bytes, then one ECAM window
/// at 0xe0000000 for segment 0, buses 0 to 255.
pub proof fn lemma_mcfg_bytes()
    ensures
        mcfg_image().len() == 60,
        mcfg_image().subrange(36, 60) == seq![
            0x00u8, 0x00, 0x00, 0x00, 0x00, 0x00, 0x00, 0x00,
            0x00, 0x00, 0x00, 0xe0, 0x00, 0x00, 0x00, 0x00,
            0x00, 0x00, 0x00, 0xff, 0x00, 0x00, 0x00, 0x00,
        ],
{
    reveal(mcfg_image);
    assert(mcfg_image().subrange(36, 60) =~= seq![
        0x00u8, 0x00, 0x00, 0x00, 0x00, 0x00, 0x00, 0x00,
        0x00, 0x00, 0x00, 0xe0, 0x00, 0x00, 0x00, 0x00,
        0x00, 0x00, 0x00, 0xff, 0x00, 0x00, 0x00, 0x00,
    ]);
}

/// The WAET after its header: the flags say that the PM timer can be
/// read once (bit 1), and nothing more.
pub proof fn lemma_waet_bytes()
    ensures
        waet_image().len() == 40,
        waet_image().subrange(36, 40) == seq![0x02u8, 0x00, 0x00, 0x00],
{
    reveal(waet_image);
    assert(waet_image().subrange(36, 40) =~= seq![0x02u8, 0x00, 0x00, 0x00]);
}

/// The FACS of the blob: the signature, the length 64, and zero in every
/// other field, the version among them.
pub proof fn lemma_facs_bytes()
    ensures
        qemu_facs() == seq![0x46u8, 0x41, 0x43, 0x53, 0x40, 0x00, 0x00, 0x00] + Seq::new(
            56,
            |i: int| 0u8,
        ),
{
    reveal(qemu_facs);
    assert(qemu_facs() =~= seq![0x46u8, 0x41, 0x43, 0x53, 0x40, 0x00, 0x00, 0x00] + Seq::new(
        56,
        |i: int| 0u8,
    ));
}

} // verus!
